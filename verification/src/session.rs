//! A conversation session: its history, the files it carries, and its lifetime.
use vstd::prelude::*;

use crate::clock::now_nanos;
use crate::ident::{is_random_uuid, new_random_id};
use crate::paths::{file_name_of, path_file_name};
use crate::provider::AiProvider;
use crate::text::to_owned_string;
use crate::types::{
    FileContext, FileContextView, GenerateRequest, GenerateRequestView, GenerateResponse, Message,
    MessageView, ProviderError, Role,
};

verus! {

/// A conversation with a provider. Times are nanoseconds since the Unix epoch.
#[derive(Debug)]
pub struct Session {
    pub id: u128,
    pub title: Option<String>,
    pub created_at: i128,
    pub last_active: i128,
    /// Lifetime in seconds after the last activity (`None`: no expiry).
    pub ttl_secs: Option<u64>,
    pub system_prompt: Option<String>,
    pub messages: Vec<Message>,
    pub file_contexts: Vec<FileContext>,
}

/// The mathematical value of a session.
pub struct SessionView {
    pub id: u128,
    pub title: Option<Seq<char>>,
    pub created_at: i128,
    pub last_active: i128,
    pub ttl_secs: Option<u64>,
    pub system_prompt: Option<Seq<char>>,
    pub messages: Seq<MessageView>,
    pub file_contexts: Seq<FileContextView>,
}

impl DeepView for Session {
    type V = SessionView;

    open spec fn deep_view(&self) -> SessionView {
        SessionView {
            id: self.id,
            title: self.title.deep_view(),
            created_at: self.created_at,
            last_active: self.last_active,
            ttl_secs: self.ttl_secs,
            system_prompt: self.system_prompt.deep_view(),
            messages: self.messages.deep_view(),
            file_contexts: self.file_contexts.deep_view(),
        }
    }
}

/// Whole seconds from `from` to `to`, rounded toward zero.
pub open spec fn elapsed_secs(to: i128, from: i128) -> int {
    let d = to - from;
    if d >= 0 {
        d / 1_000_000_000
    } else {
        -((-d) / 1_000_000_000)
    }
}

/// A session is expired at time `now` when it has a lifetime and more than that
/// many whole seconds (and at least one) have passed since its last activity.
pub open spec fn expired_at(ttl_secs: Option<u64>, last_active: i128, now: i128) -> bool {
    match ttl_secs {
        None => false,
        Some(ttl) => elapsed_secs(now, last_active) > 0 && elapsed_secs(now, last_active) > ttl,
    }
}

/// The name under which a file read from `path` is shown: its last component,
/// or the whole path where it has none.
pub open spec fn context_name(path: Seq<char>, last: Option<Seq<char>>) -> Seq<char> {
    match last {
        Some(n) => n,
        None => path,
    }
}

/// A message as it is appended by a session.
pub open spec fn message_of(role: Role, content: Seq<char>, at: i128) -> MessageView {
    MessageView { role, content, timestamp: at }
}

/// The request that asks about the conversation of `s`.
pub open spec fn request_of(s: SessionView) -> GenerateRequestView {
    GenerateRequestView {
        system_prompt: s.system_prompt,
        messages: s.messages,
        file_contexts: s.file_contexts,
    }
}

/// `new` and `old` agree on everything but the history and the last activity.
pub open spec fn same_but_history(new: SessionView, old: SessionView) -> bool {
    &&& new.id == old.id
    &&& new.title == old.title
    &&& new.created_at == old.created_at
    &&& new.ttl_secs == old.ttl_secs
    &&& new.system_prompt == old.system_prompt
    &&& new.file_contexts == old.file_contexts
}

/// Copies a vector of messages.
pub fn copy_messages(v: &Vec<Message>) -> (r: Vec<Message>)
    ensures
        r.deep_view() == v.deep_view(),
{
    let r = v.clone();
    assert(r.deep_view() =~= v.deep_view());
    r
}

/// Copies a vector of file contexts.
pub fn copy_file_contexts(v: &Vec<FileContext>) -> (r: Vec<FileContext>)
    ensures
        r.deep_view() == v.deep_view(),
{
    let r = v.clone();
    assert(r.deep_view() =~= v.deep_view());
    r
}

/// Copies an optional text.
pub fn copy_text(t: &Option<String>) -> (r: Option<String>)
    ensures
        r.deep_view() == t.deep_view(),
{
    match t {
        Some(s) => Some(s.clone()),
        None => None,
    }
}

impl Clone for GenerateRequest {
    fn clone(&self) -> (r: Self)
        ensures
            r.deep_view() == self.deep_view(),
    {
        GenerateRequest {
            system_prompt: copy_text(&self.system_prompt),
            messages: copy_messages(&self.messages),
            file_contexts: copy_file_contexts(&self.file_contexts),
        }
    }
}

impl Clone for Session {
    fn clone(&self) -> (r: Self)
        ensures
            r.deep_view() == self.deep_view(),
    {
        Session {
            id: self.id,
            title: copy_text(&self.title),
            created_at: self.created_at,
            last_active: self.last_active,
            ttl_secs: self.ttl_secs,
            system_prompt: copy_text(&self.system_prompt),
            messages: copy_messages(&self.messages),
            file_contexts: copy_file_contexts(&self.file_contexts),
        }
    }
}

impl Session {
    /// A new session at time `now` with identifier `id`: no title, no history,
    /// no files, created and last active at `now`.
    pub fn new_at(id: u128, now: i128, system_prompt: Option<String>, ttl_secs: Option<u64>) -> (s:
        Self)
        ensures
            s.id == id,
            s.title is None,
            s.created_at == now,
            s.last_active == now,
            s.ttl_secs == ttl_secs,
            s.system_prompt == system_prompt,
            s.messages@.len() == 0,
            s.file_contexts@.len() == 0,
    {
        Session {
            id,
            title: None,
            created_at: now,
            last_active: now,
            ttl_secs,
            system_prompt,
            messages: Vec::new(),
            file_contexts: Vec::new(),
        }
    }

    /// A new session with a fresh random identifier, created now.
    pub fn new(system_prompt: Option<String>, ttl_secs: Option<u64>) -> (s: Self)
        ensures
            is_random_uuid(s.id),
            s.title is None,
            s.created_at == s.last_active,
            s.ttl_secs == ttl_secs,
            s.system_prompt == system_prompt,
            s.messages@.len() == 0,
            s.file_contexts@.len() == 0,
    {
        let id = new_random_id();
        let now = now_nanos();
        Session::new_at(id, now, system_prompt, ttl_secs)
    }

    /// Whether the session is expired at time `now`.
    pub fn is_expired_at(&self, now: i128) -> (b: bool)
        ensures
            b == expired_at(self.ttl_secs, self.last_active, now),
    {
        match self.ttl_secs {
            None => false,
            Some(ttl) => {
                if now <= self.last_active {
                    return false;
                }
                match now.checked_sub(self.last_active) {
                    Some(d) => {
                        let elapsed: i128 = d / 1_000_000_000;
                        assert(elapsed == elapsed_secs(now, self.last_active));
                        elapsed > 0 && elapsed > ttl as i128
                    },
                    None => {
                        assert(elapsed_secs(now, self.last_active) > u64::MAX) by (nonlinear_arith)
                            requires
                                now - self.last_active > i128::MAX,
                                elapsed_secs(now, self.last_active) == (now - self.last_active)
                                    / 1_000_000_000,
                        ;
                        true
                    },
                }
            },
        }
    }

    /// Whether the session is expired now: the answer of `is_expired_at` for
    /// the time read from the clock.
    pub fn is_expired(&self) -> (b: bool)
        ensures
            self.ttl_secs is None ==> !b,
            exists|now: i128| b == expired_at(self.ttl_secs, self.last_active, now),
    {
        let now = now_nanos();
        let b = self.is_expired_at(now);
        assert(b == expired_at(self.ttl_secs, self.last_active, now));
        b
    }

    /// Adds a file read from `path`, with the text `content`, to the files that
    /// accompany every request.
    pub fn add_file_context(&mut self, path: &str, content: String)
        ensures
            final(self).file_contexts.deep_view() == old(self).file_contexts.deep_view().push(
                FileContextView {
                    filename: context_name(path@, path_file_name(path@)),
                    content: content@,
                },
            ),
            final(self).messages.deep_view() == old(self).messages.deep_view(),
            final(self).id == old(self).id,
            final(self).title == old(self).title,
            final(self).created_at == old(self).created_at,
            final(self).last_active == old(self).last_active,
            final(self).ttl_secs == old(self).ttl_secs,
            final(self).system_prompt == old(self).system_prompt,
    {
        let filename = match file_name_of(path) {
            Some(n) => n,
            None => to_owned_string(path),
        };
        self.file_contexts.push(FileContext { filename, content });
        assert(self.file_contexts.deep_view() =~= old(self).file_contexts.deep_view().push(
            FileContextView {
                filename: context_name(path@, path_file_name(path@)),
                content: content@,
            },
        ));
    }

    /// Forgets the conversation; everything else stays.
    pub fn clear_history(&mut self)
        ensures
            final(self).messages@.len() == 0,
            same_but_history(final(self).deep_view(), old(self).deep_view()),
            final(self).last_active == old(self).last_active,
    {
        self.messages.clear();
    }

    /// Appends the user's `input`, made at time `at`, to the history and returns
    /// the request that asks about the whole conversation.
    pub fn begin_send(&mut self, input: &str, at: i128) -> (req: GenerateRequest)
        ensures
            final(self).deep_view().messages == old(self).deep_view().messages.push(
                message_of(Role::User, input@, at),
            ),
            same_but_history(final(self).deep_view(), old(self).deep_view()),
            final(self).last_active == old(self).last_active,
            req.deep_view() == request_of(final(self).deep_view()),
    {
        self.messages.push(Message { role: Role::User, content: to_owned_string(input), timestamp: at });
        assert(self.messages.deep_view() =~= old(self).messages.deep_view().push(
            message_of(Role::User, input@, at),
        ));
        GenerateRequest {
            system_prompt: copy_text(&self.system_prompt),
            messages: copy_messages(&self.messages),
            file_contexts: copy_file_contexts(&self.file_contexts),
        }
    }

    /// Takes the provider's `reply`. An answer is appended as the assistant's
    /// message made at `at`, the session is active at `active`, and the answer's
    /// text is returned; an error leaves the session as it is and is returned.
    pub fn finish_send(
        &mut self,
        reply: Result<GenerateResponse, ProviderError>,
        at: i128,
        active: i128,
    ) -> (r: Result<String, ProviderError>)
        ensures
            same_but_history(final(self).deep_view(), old(self).deep_view()),
            match reply {
                Ok(resp) => {
                    &&& r matches Ok(text) && text@ == resp.content@
                    &&& final(self).deep_view().messages == old(self).deep_view().messages.push(
                        message_of(Role::Assistant, resp.content@, at),
                    )
                    &&& final(self).last_active == active
                },
                Err(e) => {
                    &&& r == Err::<String, ProviderError>(e)
                    &&& final(self).deep_view().messages == old(self).deep_view().messages
                    &&& final(self).last_active == old(self).last_active
                },
            },
    {
        match reply {
            Ok(resp) => {
                let text = resp.content.clone();
                self.messages.push(Message { role: Role::Assistant, content: resp.content, timestamp: at });
                assert(self.messages.deep_view() =~= old(self).messages.deep_view().push(
                    message_of(Role::Assistant, text@, at),
                ));
                self.last_active = active;
                Ok(text)
            },
            Err(e) => Err(e),
        }
    }

    /// Sends the user's `input` to `provider` together with the whole
    /// conversation and returns the answer. The input is kept in the history
    /// whether or not the provider answers; an answer is kept after it, and the
    /// session then counts as active from the moment of the answer.
    pub fn send<P: AiProvider>(&mut self, provider: &P, input: &str) -> (r: Result<
        String,
        ProviderError,
    >)
        ensures
            same_but_history(final(self).deep_view(), old(self).deep_view()),
            ({
                let old_msgs = old(self).deep_view().messages;
                let msgs = final(self).deep_view().messages;
                &&& msgs.len() == old_msgs.len() + if r is Ok { 2int } else { 1int }
                &&& msgs.subrange(0, old_msgs.len() as int) == old_msgs
                &&& msgs[old_msgs.len() as int].role == Role::User
                &&& msgs[old_msgs.len() as int].content == input@
                &&& r matches Ok(text) ==> {
                    &&& msgs[old_msgs.len() + 1int].role == Role::Assistant
                    &&& msgs[old_msgs.len() + 1int].content == text@
                }
                &&& r is Err ==> final(self).last_active == old(self).last_active
                &&& r is Ok ==> final(self).last_active == msgs[old_msgs.len() + 1int].timestamp
                &&& exists|reply: Result<GenerateResponse, ProviderError>|
                    {
                        &&& #[trigger] provider.may_answer(
                            GenerateRequestView {
                                system_prompt: old(self).deep_view().system_prompt,
                                messages: msgs.take(old_msgs.len() + 1int),
                                file_contexts: old(self).deep_view().file_contexts,
                            },
                            reply,
                        )
                        &&& match reply {
                            Ok(resp) => r matches Ok(text) && text@ == resp.content@,
                            Err(e) => r == Err::<String, ProviderError>(e),
                        }
                    }
            }),
    {
        let asked_at = now_nanos();
        let request = self.begin_send(input, asked_at);
        let reply = provider.generate(&request);
        let ghost given = reply;
        let answered_at = now_nanos();
        let r = self.finish_send(reply, answered_at, answered_at);
        proof {
            let old_msgs = old(self).deep_view().messages;
            let msgs = self.deep_view().messages;
            assert(msgs.subrange(0, old_msgs.len() as int) =~= old_msgs);
            assert(msgs.take(old_msgs.len() + 1int) =~= request.deep_view().messages);
            assert(provider.may_answer(
                GenerateRequestView {
                    system_prompt: old(self).deep_view().system_prompt,
                    messages: msgs.take(old_msgs.len() + 1int),
                    file_contexts: old(self).deep_view().file_contexts,
                },
                given,
            ));
        }
        r
    }
}

} // verus!
