//! The text of the command-line tool's session commands.
use vstd::prelude::*;

use crate::ident::{id_text, uuid_hyphenated};
use crate::session::Session;
use crate::store::SessionSummary;
use crate::text::{append_decimal, concat2, decimal};
use crate::types::{MessageView, Role};

verus! {

/// What the `session` command does.
#[derive(Debug)]
pub enum SessionAction {
    /// List saved sessions.
    List,
    /// Show a session's details.
    Show { id: String },
    /// Delete a session.
    Delete { id: String },
    /// Remove expired sessions.
    Cleanup,
}

/// The first eight characters of an identifier's text form.
pub open spec fn short_id(id: u128) -> Seq<char> {
    uuid_hyphenated(id).take(8)
}

/// The first eight characters of an identifier's text form.
pub fn short_id_text(id: u128) -> (s: String)
    ensures
        s@ == short_id(id),
{
    let full = id_text(id);
    full.as_str().substring_char(0, 8).to_owned()
}

/// The line that lists a session, with `time` the text of its last activity.
pub open spec fn summary_line(s: SessionSummary, time: Seq<char>) -> Seq<char> {
    short_id(s.id) + "  "@ + (match s.title {
        Some(t) => t@,
        None => "(untitled)"@,
    }) + "  ("@ + decimal(s.message_count as nat) + " msgs, "@ + time + ")"@ + (if s.expired {
        " [expired]"@
    } else {
        Seq::empty()
    })
}

/// The line that lists a session, with `time` the text of its last activity.
pub fn render_summary_line(s: &SessionSummary, time: &str) -> (r: String)
    ensures
        r@ == summary_line(*s, time@),
{
    let mut r = short_id_text(s.id);
    r.append("  ");
    match &s.title {
        Some(t) => r.append(t.as_str()),
        None => r.append("(untitled)"),
    }
    r.append("  (");
    append_decimal(&mut r, s.message_count as u64);
    r.append(" msgs, ");
    r.append(time);
    r.append(")");
    if s.expired {
        r.append(" [expired]");
    }
    r
}

/// The lines of a session listing, `times[k]` being the text of the last
/// activity of `summaries[k]`: a note where there are no sessions.
pub fn render_list(summaries: &Vec<SessionSummary>, times: &Vec<String>) -> (r: Vec<String>)
    requires
        times@.len() == summaries@.len(),
    ensures
        summaries@.len() == 0 ==> r@.len() == 1 && r@[0]@ == "No sessions found."@,
        summaries@.len() > 0 ==> r@.len() == summaries@.len() && forall|k: int|
            0 <= k < r@.len() ==> (#[trigger] r@[k])@ == summary_line(summaries@[k], times@[k]@),
{
    let mut r: Vec<String> = Vec::new();
    if summaries.len() == 0 {
        r.push("No sessions found.".to_owned());
        return r;
    }
    let n = summaries.len();
    let mut i: usize = 0;
    while i < n
        invariant
            n == summaries@.len(),
            times@.len() == n,
            i <= n,
            r@.len() == i,
            forall|k: int|
                0 <= k < i ==> (#[trigger] r@[k])@ == summary_line(summaries@[k], times@[k]@),
        decreases n - i,
    {
        r.push(render_summary_line(&summaries[i], times[i].as_str()));
        i = i + 1;
    }
    r
}

/// How a message's author is labelled in the session text.
pub open spec fn author_label(role: Role) -> Seq<char> {
    match role {
        Role::User => "You"@,
        Role::Assistant => "AI"@,
    }
}

/// How a message's author is labelled in the session text.
pub fn author_label_text(role: Role) -> (s: &'static str)
    ensures
        s@ == author_label(role),
{
    match role {
        Role::User => "You",
        Role::Assistant => "AI",
    }
}

/// The names joined with `, `.
pub open spec fn comma_list(names: Seq<Seq<char>>) -> Seq<char>
    decreases names.len(),
{
    if names.len() == 0 {
        Seq::empty()
    } else if names.len() == 1 {
        names[0]
    } else {
        comma_list(names.drop_last()) + ", "@ + names.last()
    }
}

/// The header lines of a shown session, `created` and `active` being the
/// texts of its times.
pub open spec fn header_lines(s: Session, created: Seq<char>, active: Seq<char>) -> Seq<Seq<char>> {
    seq!["Session: "@ + uuid_hyphenated(s.id)] + (match s.title {
        Some(t) => seq!["Title:   "@ + t@],
        None => Seq::empty(),
    }) + seq!["Created: "@ + created, "Active:  "@ + active] + (match s.ttl_secs {
        Some(t) => seq!["TTL:     "@ + decimal(t as nat) + "s"@],
        None => Seq::empty(),
    }) + (match s.system_prompt {
        Some(p) => seq!["System:  "@ + p@],
        None => Seq::empty(),
    }) + (if s.file_contexts@.len() > 0 {
        seq![
            "Files:   "@ + comma_list(
                s.file_contexts@.map_values(|f: crate::types::FileContext| f.filename@),
            ),
        ]
    } else {
        Seq::empty()
    }) + seq!["---"@]
}

/// The lines that show the messages: each as its author's label and its text,
/// followed by an empty line.
pub open spec fn message_lines(messages: Seq<MessageView>) -> Seq<Seq<char>>
    decreases messages.len(),
{
    if messages.len() == 0 {
        Seq::empty()
    } else {
        let m = messages.last();
        message_lines(messages.drop_last()) + seq![
            author_label(m.role) + ": "@ + m.content,
            Seq::empty(),
        ]
    }
}

/// The lines that show a session, `created` and `active` being the texts of
/// its times.
pub fn render_session(s: &Session, created: &str, active: &str) -> (r: Vec<String>)
    ensures
        r.deep_view() == header_lines(*s, created@, active@) + message_lines(
            s.messages.deep_view(),
        ),
{
    let mut r: Vec<String> = Vec::new();
    let ghost mut lines: Seq<Seq<char>> = Seq::empty();
    let full = id_text(s.id);
    r.push(concat2("Session: ", full.as_str()));
    match &s.title {
        Some(t) => r.push(concat2("Title:   ", t.as_str())),
        None => {},
    }
    r.push(concat2("Created: ", created));
    r.push(concat2("Active:  ", active));
    match s.ttl_secs {
        Some(t) => {
            let mut line = "TTL:     ".to_owned();
            append_decimal(&mut line, t);
            line.append("s");
            r.push(line);
        },
        None => {},
    }
    match &s.system_prompt {
        Some(p) => r.push(concat2("System:  ", p.as_str())),
        None => {},
    }
    if s.file_contexts.len() > 0 {
        let mut line = "Files:   ".to_owned();
        let ghost head = line@;
        let ghost names = s.file_contexts@.map_values(|f: crate::types::FileContext| f.filename@);
        let n = s.file_contexts.len();
        let mut i: usize = 0;
        while i < n
            invariant
                n == s.file_contexts@.len(),
                names == s.file_contexts@.map_values(|f: crate::types::FileContext| f.filename@),
                i <= n,
                line@ == head + comma_list(names.take(i as int)),
            decreases n - i,
        {
            assert(names.take(i + 1).drop_last() =~= names.take(i as int));
            if i > 0 {
                line.append(", ");
            }
            line.append(s.file_contexts[i].filename.as_str());
            proof {
                if i == 0 {
                    assert(names.take(1) =~= seq![names[0]]);
                }
                assert(line@ =~= head + comma_list(names.take(i + 1)));
            }
            i = i + 1;
        }
        assert(names.take(n as int) =~= names);
        r.push(line);
    }
    r.push("---".to_owned());
    assert(r.deep_view() =~= header_lines(*s, created@, active@));
    let ghost head_lines = r.deep_view();
    let n = s.messages.len();
    let mut i: usize = 0;
    while i < n
        invariant
            n == s.messages@.len(),
            i <= n,
            r.deep_view() == head_lines + message_lines(s.messages.deep_view().take(i as int)),
        decreases n - i,
    {
        assert(s.messages.deep_view().take(i + 1).drop_last() =~= s.messages.deep_view().take(
            i as int,
        ));
        let m = &s.messages[i];
        let mut line = author_label_text(m.role).to_owned();
        line.append(": ");
        line.append(m.content.as_str());
        let ghost before = r.deep_view();
        let ghost shown = line@;
        r.push(line);
        r.push(String::new());
        proof {
            assert(r.deep_view() =~= before.push(shown).push(Seq::empty()));
            let ms = s.messages.deep_view().take(i + 1);
            assert(ms.last() == s.messages.deep_view()[i as int]);
            assert(message_lines(ms) == message_lines(ms.drop_last()) + seq![
                author_label(ms.last().role) + ": "@ + ms.last().content,
                Seq::empty(),
            ]);
            assert(r.deep_view() =~= head_lines + message_lines(ms));
        }
        i = i + 1;
    }
    assert(s.messages.deep_view().take(n as int) =~= s.messages.deep_view());
    r
}

/// The line that reports a deleted session.
pub fn deleted_line(id: u128) -> (r: String)
    ensures
        r@ == "Deleted session "@ + uuid_hyphenated(id),
{
    let full = id_text(id);
    concat2("Deleted session ", full.as_str())
}

/// The line that reports how many expired sessions were removed.
pub fn cleanup_line(count: usize) -> (r: String)
    ensures
        r@ == "Removed "@ + decimal(count as nat) + " expired session(s)."@,
{
    let mut r = "Removed ".to_owned();
    append_decimal(&mut r, count as u64);
    r.append(" expired session(s).");
    r
}

} // verus!
