//! The decisions of the interactive chat: what a line of input is, what a
//! chat command does and prints, and when a session may be resumed.
use vstd::prelude::*;
use vstd::utf8::encode_utf8;

use crate::cli::{short_id, short_id_text};
use crate::ident::{id_text, uuid_hyphenated};
use crate::session::{expired_at, Session};
use crate::text::{
    append_decimal, byte_len, concat2, decimal, same_text, trim_text,
    trimmed,
};

verus! {

/// What the chat loop does after a command.
#[derive(Debug, Clone, Copy, PartialEq, Eq, Structural)]
pub enum CommandResult {
    /// Read the next line.
    Continue,
    /// Save the session and leave.
    Quit,
    /// Forget the conversation and read the next line.
    Clear,
}

/// How a line of chat output is shown.
#[derive(Debug, Clone, Copy, PartialEq, Eq, Structural)]
pub enum LineStyle {
    Plain,
    Bold,
    Dimmed,
    Warning,
}

/// A line of chat output.
#[derive(Debug)]
pub struct OutputLine {
    pub text: String,
    pub style: LineStyle,
}

/// What a line typed into the chat is.
#[derive(Debug)]
pub enum ChatInput {
    /// Nothing but white space: ignored.
    Blank,
    /// A command, the trimmed line beginning with `/`.
    Command(String),
    /// A message for the model, the trimmed line.
    Message(String),
}

/// What a typed line is: its trimmed text, ignored where empty, a command
/// where it begins with `/`, else a message.
pub fn classify_input(line: &str) -> (r: ChatInput)
    ensures
        trimmed(line@).len() == 0 <==> r is Blank,
        r matches ChatInput::Command(c) ==> c@ == trimmed(line@) && c@[0] == '/',
        r matches ChatInput::Message(m) ==> m@ == trimmed(line@) && m@[0] != '/',
        trimmed(line@).len() > 0 ==> (r is Command <==> trimmed(line@)[0] == '/'),
{
    let t = trim_text(line);
    if t.unicode_len() == 0 {
        ChatInput::Blank
    } else if t.get_char(0) == '/' {
        ChatInput::Command(t.to_owned())
    } else {
        ChatInput::Message(t.to_owned())
    }
}

/// A line of output.
fn line(text: String, style: LineStyle) -> (l: OutputLine)
    ensures
        l.text == text,
        l.style == style,
{
    OutputLine { text, style }
}

/// The lines of `/help`.
pub open spec fn help_lines() -> Seq<Seq<char>> {
    seq![
        "Commands:"@,
        "  /quit    Exit and save session"@,
        "  /clear   Clear conversation history"@,
        "  /files   Show loaded file contexts"@,
        "  /info    Show session info"@,
        "  /help    Show this help"@,
    ]
}

/// The texts of the output lines.
pub open spec fn texts(lines: Seq<OutputLine>) -> Seq<Seq<char>> {
    lines.map_values(|l: OutputLine| l.text@)
}

/// The styles of the output lines.
pub open spec fn styles(lines: Seq<OutputLine>) -> Seq<LineStyle> {
    lines.map_values(|l: OutputLine| l.style)
}

/// `n` lines in the plain style.
pub open spec fn plain_lines(n: nat) -> Seq<LineStyle> {
    Seq::new(n, |k: int| LineStyle::Plain)
}

/// How the lines that a chat command prints are shown: the heading of `/help`
/// in bold, the note of `/files` that nothing is loaded dimmed, the answer to
/// an unknown command as a warning, every other line plain.
pub open spec fn command_styles(cmd: Seq<char>, s: Session, given: nat) -> Seq<LineStyle> {
    if cmd == "/quit"@ || cmd == "/exit"@ || cmd == "/q"@ || cmd == "/clear"@ {
        Seq::empty()
    } else if cmd == "/help"@ || cmd == "/h"@ {
        seq![LineStyle::Bold] + plain_lines(5)
    } else if cmd == "/files"@ {
        if s.file_contexts@.len() == 0 && given == 0 {
            seq![LineStyle::Dimmed]
        } else {
            plain_lines(s.file_contexts@.len())
        }
    } else if cmd == "/info"@ {
        plain_lines(info_lines(s).len())
    } else {
        seq![LineStyle::Warning]
    }
}

/// The lines of `/files`: a note where neither the session nor the command line
/// has files, else each file of the session with its size in bytes.
pub open spec fn file_lines(s: Session, given: nat) -> Seq<Seq<char>> {
    if s.file_contexts@.len() == 0 && given == 0 {
        seq!["No files loaded."@]
    } else {
        Seq::new(
            s.file_contexts@.len(),
            |k: int|
                "  "@ + s.file_contexts@[k].filename@ + " ("@ + decimal(
                    (encode_utf8(s.file_contexts@[k].content@).len() as usize) as nat,
                ) + " bytes)"@,
        )
    }
}

/// The lines of `/info`.
pub open spec fn info_lines(s: Session) -> Seq<Seq<char>> {
    seq!["  Session:  "@ + uuid_hyphenated(s.id), "  Messages: "@ + decimal(s.messages@.len())]
        + (match s.system_prompt {
        Some(p) => seq!["  System:   "@ + p@],
        None => Seq::empty(),
    }) + (match s.ttl_secs {
        Some(t) => seq!["  TTL:      "@ + decimal(t as nat) + "s"@],
        None => Seq::empty(),
    })
}

/// What a chat command does and the texts it prints, for session `s` started
/// with `given` files named on the command line.
pub open spec fn command_outcome(cmd: Seq<char>, s: Session, given: nat) -> (CommandResult, Seq<
    Seq<char>,
>) {
    if cmd == "/quit"@ || cmd == "/exit"@ || cmd == "/q"@ {
        (CommandResult::Quit, Seq::empty())
    } else if cmd == "/clear"@ {
        (CommandResult::Clear, Seq::empty())
    } else if cmd == "/help"@ || cmd == "/h"@ {
        (CommandResult::Continue, help_lines())
    } else if cmd == "/files"@ {
        (CommandResult::Continue, file_lines(s, given))
    } else if cmd == "/info"@ {
        (CommandResult::Continue, info_lines(s))
    } else {
        (
            CommandResult::Continue,
            seq!["Unknown command: "@ + cmd + ". Type /help for commands."@],
        )
    }
}

/// Carries out the chat command `cmd` for session `s`, started with `given`
/// files named on the command line: what the loop does next, and the lines to
/// print.
pub fn handle_command(cmd: &str, s: &Session, given: usize) -> (r: (CommandResult, Vec<OutputLine>))
    ensures
        r.0 == command_outcome(cmd@, *s, given as nat).0,
        texts(r.1@) == command_outcome(cmd@, *s, given as nat).1,
        styles(r.1@) == command_styles(cmd@, *s, given as nat),
{
    let mut out: Vec<OutputLine> = Vec::new();
    if same_text(cmd, "/quit") || same_text(cmd, "/exit") || same_text(cmd, "/q") {
        assert(texts(out@) =~= Seq::<Seq<char>>::empty());
        assert(styles(out@) =~= Seq::<LineStyle>::empty());
        return (CommandResult::Quit, out);
    }
    if same_text(cmd, "/clear") {
        assert(texts(out@) =~= Seq::<Seq<char>>::empty());
        assert(styles(out@) =~= Seq::<LineStyle>::empty());
        return (CommandResult::Clear, out);
    }
    if same_text(cmd, "/help") || same_text(cmd, "/h") {
        out.push(line("Commands:".to_owned(), LineStyle::Bold));
        out.push(line("  /quit    Exit and save session".to_owned(), LineStyle::Plain));
        out.push(line("  /clear   Clear conversation history".to_owned(), LineStyle::Plain));
        out.push(line("  /files   Show loaded file contexts".to_owned(), LineStyle::Plain));
        out.push(line("  /info    Show session info".to_owned(), LineStyle::Plain));
        out.push(line("  /help    Show this help".to_owned(), LineStyle::Plain));
        assert(texts(out@) =~= help_lines());
        assert(styles(out@) =~= seq![LineStyle::Bold] + plain_lines(5));
        return (CommandResult::Continue, out);
    }
    if same_text(cmd, "/files") {
        if s.file_contexts.len() == 0 && given == 0 {
            out.push(line("No files loaded.".to_owned(), LineStyle::Dimmed));
            assert(texts(out@) =~= file_lines(*s, given as nat));
            assert(styles(out@) =~= seq![LineStyle::Dimmed]);
            return (CommandResult::Continue, out);
        }
        let n = s.file_contexts.len();
        let mut i: usize = 0;
        while i < n
            invariant
                n == s.file_contexts@.len(),
                !(s.file_contexts@.len() == 0 && given == 0),
                i <= n,
                texts(out@) == file_lines(*s, given as nat).take(i as int),
                styles(out@) == plain_lines(i as nat),
            decreases n - i,
        {
            let f = &s.file_contexts[i];
            let mut t = concat2("  ", f.filename.as_str());
            t.append(" (");
            let size = byte_len(f.content.as_str());
            append_decimal(&mut t, size as u64);
            t.append(" bytes)");
            let ghost before = out@;
            let ghost shown = t@;
            assert(shown == file_lines(*s, given as nat)[i as int]);
            out.push(line(t, LineStyle::Plain));
            assert(texts(out@) =~= texts(before).push(shown));
            assert(texts(out@) =~= file_lines(*s, given as nat).take(i + 1));
            assert(styles(out@) =~= styles(before).push(LineStyle::Plain));
            assert(styles(out@) =~= plain_lines((i + 1) as nat));
            i = i + 1;
        }
        assert(file_lines(*s, given as nat).take(n as int) =~= file_lines(*s, given as nat));
        return (CommandResult::Continue, out);
    }
    if same_text(cmd, "/info") {
        let full = id_text(s.id);
        out.push(line(concat2("  Session:  ", full.as_str()), LineStyle::Plain));
        let mut m = "  Messages: ".to_owned();
        append_decimal(&mut m, s.messages.len() as u64);
        out.push(line(m, LineStyle::Plain));
        match &s.system_prompt {
            Some(p) => out.push(line(concat2("  System:   ", p.as_str()), LineStyle::Plain)),
            None => {},
        }
        match s.ttl_secs {
            Some(t) => {
                let mut l = "  TTL:      ".to_owned();
                append_decimal(&mut l, t);
                l.append("s");
                out.push(line(l, LineStyle::Plain));
            },
            None => {},
        }
        assert(texts(out@) =~= info_lines(*s));
        assert(styles(out@) =~= plain_lines(info_lines(*s).len()));
        return (CommandResult::Continue, out);
    }
    let mut t = concat2("Unknown command: ", cmd);
    t.append(". Type /help for commands.");
    out.push(line(t, LineStyle::Warning));
    assert(texts(out@) =~= seq!["Unknown command: "@ + cmd@ + ". Type /help for commands."@]);
    assert(styles(out@) =~= seq![LineStyle::Warning]);
    (CommandResult::Continue, out)
}

/// A session may be resumed at time `now` only where it is not expired; the
/// refusal names the session.
pub fn check_resumable(s: &Session, now: i128) -> (r: Result<(), String>)
    ensures
        r is Ok <==> !expired_at(s.ttl_secs, s.last_active, now),
        r matches Err(m) ==> m@ == "session "@ + uuid_hyphenated(s.id) + " has expired"@,
{
    if s.is_expired_at(now) {
        let full = id_text(s.id);
        let mut m = concat2("session ", full.as_str());
        m.append(" has expired");
        Err(m)
    } else {
        Ok(())
    }
}

/// The line that announces a resumed session.
pub fn resumed_line(s: &Session) -> (r: String)
    ensures
        r@ == "Resumed session "@ + short_id(s.id) + " ("@ + decimal(s.messages@.len())
            + " messages)"@,
{
    let short = short_id_text(s.id);
    let mut r = concat2("Resumed session ", short.as_str());
    r.append(" (");
    append_decimal(&mut r, s.messages.len() as u64);
    r.append(" messages)");
    r
}

/// The line that opens a chat.
pub fn session_banner(s: &Session) -> (r: String)
    ensures
        r@ == "Session: "@ + short_id(s.id) + " | Type /help for commands, /quit to exit"@,
{
    let short = short_id_text(s.id);
    let mut r = concat2("Session: ", short.as_str());
    r.append(" | Type /help for commands, /quit to exit");
    r
}

} // verus!
