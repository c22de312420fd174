//! What the desktop interface receives from its commands.
use vstd::prelude::*;
use vstd::utf8::encode_utf8;

use crate::ident::{id_text, uuid_hyphenated};
use crate::session::{copy_messages, Session};
use crate::store::SessionSummary;
use crate::text::byte_len;
use crate::types::{FileContext, Message};

verus! {

/// The answer to a sent message, with the whole conversation after it.
#[derive(Debug)]
pub struct SendMessageResponse {
    pub content: String,
    pub messages: Vec<Message>,
}

impl SendMessageResponse {
    /// The answer `content` with the conversation of `s`.
    pub fn new(content: String, s: &Session) -> (r: Self)
        ensures
            r.content == content,
            r.messages.deep_view() == s.messages.deep_view(),
    {
        SendMessageResponse { content, messages: copy_messages(&s.messages) }
    }
}

/// A file added to a session: its name and its size in bytes.
#[derive(Debug)]
pub struct FileContextInfoDto {
    pub filename: String,
    pub size: usize,
}

impl FileContextInfoDto {
    /// The file last added to session `s`; an error where it has none.
    pub fn last_added(s: &Session) -> (r: Result<Self, String>)
        ensures
            s.file_contexts@.len() == 0 ==> (r matches Err(m) && m@ == "failed to add file context"@),
            s.file_contexts@.len() > 0 ==> (r matches Ok(d) && d.filename@ == s.file_contexts@.last().filename@
                && d.size == encode_utf8(s.file_contexts@.last().content@).len() as usize),
    {
        let n = s.file_contexts.len();
        if n == 0 {
            return Err("failed to add file context".to_owned());
        }
        let f = &s.file_contexts[n - 1];
        Ok(FileContextInfoDto { filename: f.filename.clone(), size: byte_len(f.content.as_str()) })
    }
}

/// A listed session as the interface shows it.
#[derive(Debug)]
pub struct SessionSummaryDto {
    pub id: String,
    pub title: Option<String>,
    pub last_active: i128,
    pub message_count: usize,
    pub expired: bool,
}

impl SessionSummaryDto {
    /// The summary `s`, with its identifier in text form.
    pub fn from_summary(s: SessionSummary) -> (d: Self)
        ensures
            d.id@ == uuid_hyphenated(s.id),
            d.title == s.title,
            d.last_active == s.last_active,
            d.message_count == s.message_count,
            d.expired == s.expired,
    {
        SessionSummaryDto {
            id: id_text(s.id),
            title: s.title,
            last_active: s.last_active,
            message_count: s.message_count,
            expired: s.expired,
        }
    }
}

/// A loaded session as the interface shows it.
#[derive(Debug)]
pub struct SessionDetailDto {
    pub id: String,
    pub title: Option<String>,
    pub system_prompt: Option<String>,
    pub messages: Vec<Message>,
    pub file_contexts: Vec<FileContext>,
}

impl SessionDetailDto {
    /// The session `s`, with its identifier in text form.
    pub fn from_session(s: Session) -> (d: Self)
        ensures
            d.id@ == uuid_hyphenated(s.id),
            d.title == s.title,
            d.system_prompt == s.system_prompt,
            d.messages == s.messages,
            d.file_contexts == s.file_contexts,
    {
        SessionDetailDto {
            id: id_text(s.id),
            title: s.title,
            system_prompt: s.system_prompt,
            messages: s.messages,
            file_contexts: s.file_contexts,
        }
    }
}

/// A created session as the interface learns of it.
#[derive(Debug)]
pub struct SessionInfoDto {
    pub id: String,
}

impl SessionInfoDto {
    /// The identifier of session `s`, in text form.
    pub fn of(s: &Session) -> (d: Self)
        ensures
            d.id@ == uuid_hyphenated(s.id),
    {
        SessionInfoDto { id: id_text(s.id) }
    }
}

} // verus!
