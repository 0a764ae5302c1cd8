//! The message model: one wire line is `<sender>:<body>`, split at the first colon.

use vstd::prelude::*;
use vstd::string::*;

verus! {

/// A chat message as contracts see it.
pub struct MessageView {
    pub sender: Seq<char>,
    pub msg: Seq<char>,
    pub from_self: bool,
}

/// One chat message. `from_self` is a display hint: it records that the sender
/// name equals the local name, and proves nothing about who sent the line.
#[derive(Clone, Debug, PartialEq, Eq)]
pub struct Message {
    pub sender: String,
    pub msg: String,
    pub from_self: bool,
}

impl View for Message {
    type V = MessageView;

    open spec fn view(&self) -> MessageView {
        MessageView { sender: self.sender@, msg: self.msg@, from_self: self.from_self }
    }
}

/// The two halves of a line around its first colon, if it has one.
pub open spec fn split_line(line: Seq<char>) -> Option<(Seq<char>, Seq<char>)> {
    match line.index_of_first(':') {
        Some(k) => Some((line.subrange(0, k), line.subrange(k + 1, line.len() as int))),
        None => None,
    }
}

/// The message that a wire line carries when read by a client called `name`.
/// A line without a colon carries none.
pub open spec fn parse_line(line: Seq<char>, name: Seq<char>) -> Option<MessageView> {
    match split_line(line) {
        Some((sender, msg)) => Some(MessageView { sender, msg, from_self: sender == name }),
        None => None,
    }
}

/// The outbound line for `body` sent under the name `sender`.
pub open spec fn format_line(sender: Seq<char>, body: Seq<char>) -> Seq<char> {
    sender + seq![':', ' '] + body
}

/// The text shown for a message: a coloured `<sender>` tag, green for the
/// local sender and red for anyone else, then the body as received.
pub open spec fn display_text(m: MessageView) -> Seq<char> {
    " "@ + (if m.from_self {
        "\x1b[1;32m"@
    } else {
        "\x1b[1;31m"@
    }) + "<"@ + m.sender + ">\x1b[0m"@ + m.msg
}

/// A colon at `k` with none before it is the place where the line splits.
pub proof fn lemma_first_colon(line: Seq<char>, k: int)
    requires
        0 <= k < line.len(),
        line[k] == ':',
        forall|j: int| 0 <= j < k ==> line[j] != ':',
    ensures
        line.index_of_first(':') == Some(k),
        split_line(line) == Some((line.subrange(0, k), line.subrange(k + 1, line.len() as int))),
{
    line.index_of_first_ensures(':');
    assert(line.contains(':'));
}

/// A line splits exactly when it holds a colon; the halves then rebuild the
/// line around one colon, and the first half holds none.
pub proof fn lemma_split_line(line: Seq<char>)
    ensures
        split_line(line) is Some <==> line.contains(':'),
        split_line(line) matches Some((sender, msg)) ==> {
            &&& line == sender + seq![':'] + msg
            &&& !sender.contains(':')
        },
{
    line.index_of_first_ensures(':');
    if let Some(k) = line.index_of_first(':') {
        let sender = line.subrange(0, k);
        let msg = line.subrange(k + 1, line.len() as int);
        assert(line =~= sender + seq![':'] + msg);
        if sender.contains(':') {
            let j = choose|j: int| 0 <= j < sender.len() && sender[j] == ':';
            assert(line[j] == ':');
        }
    }
}

impl Message {
    /// Reads one wire line (without its terminator) as a client called `name`.
    /// The sender is what stands before the first colon, the body everything
    /// after it, untrimmed. A line without a colon is dropped: `None`.
    pub fn parse(line: &str, name: &str) -> (r: Option<Message>)
        ensures
            r is Some <==> line@.contains(':'),
            r is None ==> parse_line(line@, name@) is None,
            r matches Some(m) ==> {
                &&& parse_line(line@, name@) == Some(m@)
                &&& line@ == m.sender@ + seq![':'] + m.msg@
                &&& !m.sender@.contains(':')
                &&& m.from_self == (m.sender@ == name@)
            },
    {
        let n = line.unicode_len();
        let mut i: usize = 0;
        proof {
            lemma_split_line(line@);
        }
        while i < n
            invariant
                n == line@.len(),
                i <= n,
                forall|j: int| 0 <= j < i ==> line@[j] != ':',
            decreases n - i,
        {
            if line.get_char(i) == ':' {
                let sender = String::from_str(line.substring_char(0, i));
                let msg = String::from_str(line.substring_char(i + 1, n));
                let local = String::from_str(name);
                let from_self = sender == local;
                proof {
                    lemma_first_colon(line@, i as int);
                }
                return Some(Message { sender, msg, from_self });
            }
            i += 1;
        }
        None
    }

    /// The outbound line for `body` sent under the name `sender`:
    /// the name, a colon, a space, the body.
    pub fn format(sender: &str, body: &str) -> (line: String)
        ensures
            line@ == format_line(sender@, body@),
    {
        let mut line = String::from_str(sender);
        line.append(": ");
        line.append(body);
        proof {
            reveal_strlit(": ");
            assert(": "@ =~= seq![':', ' ']);
        }
        line
    }

    /// The text shown for this message in the message pane.
    pub fn display(&self) -> (text: String)
        ensures
            text@ == display_text(self@),
    {
        let mut text = String::from_str(" ");
        if self.from_self {
            text.append("\x1b[1;32m");
        } else {
            text.append("\x1b[1;31m");
        }
        text.append("<");
        text.append(self.sender.as_str());
        text.append(">\x1b[0m");
        text.append(self.msg.as_str());
        text
    }
}

/// Formatting then parsing gives the sender back whenever the sender holds no
/// colon, and gives the body back behind the one space that formatting puts
/// after the colon. The message is marked as the reader's own exactly when the
/// sender is the reader's name.
pub proof fn lemma_format_parse(sender: Seq<char>, body: Seq<char>, name: Seq<char>)
    requires
        !sender.contains(':'),
    ensures
        parse_line(format_line(sender, body), name) == Some(
            MessageView { sender, msg: seq![' '] + body, from_self: sender == name },
        ),
{
    let line = format_line(sender, body);
    let k = sender.len() as int;
    assert(line[k] == ':');
    assert forall|j: int| 0 <= j < k implies line[j] != ':' by {
        assert(line[j] == sender[j]);
        assert(sender.contains(sender[j]));
    }
    lemma_first_colon(line, k);
    assert(line.subrange(0, k) =~= sender);
    assert(line.subrange(k + 1, line.len() as int) =~= seq![' '] + body);
}

} // verus!
