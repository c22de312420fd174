//! How a request is put to the on-device model: the prompt text of a single
//! turn, the messages of a conversation, and how the model's reply is read.
use vstd::prelude::*;

use crate::provider::AppleIntelligenceProvider;
use crate::session::copy_text;
use crate::text::concat2;
use crate::types::{
    FileContext, FileContextView, GenerateRequest, GenerateResponse, Message, MessageView,
    ProviderError, Role,
};

verus! {

/// The text that shows one file: a heading with its name and its contents in a
/// fenced block.
pub open spec fn file_block(f: FileContextView) -> Seq<char> {
    "### "@ + f.filename + "\n```\n"@ + f.content + "\n```\n\n"@
}

/// The blocks of all the files, in order.
pub open spec fn file_blocks(files: Seq<FileContextView>) -> Seq<char>
    decreases files.len(),
{
    if files.len() == 0 {
        Seq::empty()
    } else {
        file_blocks(files.drop_last()) + file_block(files.last())
    }
}

/// The text put before a prompt to show the files: nothing where there are
/// none, else their blocks between two marker lines.
pub open spec fn file_prefix(files: Seq<FileContextView>) -> Seq<char> {
    if files.len() == 0 {
        Seq::empty()
    } else {
        "--- Reference Files ---\n\n"@ + file_blocks(files) + "--- End of Files ---\n\n"@
    }
}

/// The label of a message's author in a flattened prompt.
pub open spec fn speaker(role: Role) -> Seq<char> {
    match role {
        Role::User => "User"@,
        Role::Assistant => "Assistant"@,
    }
}

/// The lines of the messages in a flattened prompt, in order.
pub open spec fn transcript(messages: Seq<MessageView>) -> Seq<char>
    decreases messages.len(),
{
    if messages.len() == 0 {
        Seq::empty()
    } else {
        let m = messages.last();
        transcript(messages.drop_last()) + speaker(m.role) + ": "@ + m.content + "\n\n"@
    }
}

/// The prompt of a single turn: the file prefix, then the user's message alone
/// where the conversation is that one message, else every message labelled
/// with its author.
pub open spec fn single_prompt(messages: Seq<MessageView>, files: Seq<FileContextView>) -> Seq<
    char,
> {
    if messages.len() == 1 && messages[0].role == Role::User {
        file_prefix(files) + messages[0].content
    } else {
        file_prefix(files) + transcript(messages)
    }
}

/// The text that shows the files in a prompt.
pub fn build_file_prefix(files: &Vec<FileContext>) -> (r: String)
    ensures
        r@ == file_prefix(files.deep_view()),
{
    if files.len() == 0 {
        return String::new();
    }
    let mut prefix = "--- Reference Files ---\n\n".to_owned();
    let ghost head = prefix@;
    let n = files.len();
    let mut i: usize = 0;
    while i < n
        invariant
            n == files@.len(),
            i <= n,
            prefix@ == head + file_blocks(files.deep_view().take(i as int)),
        decreases n - i,
    {
        assert(files.deep_view().take(i + 1).drop_last() =~= files.deep_view().take(i as int));
        let f = &files[i];
        prefix.append("### ");
        prefix.append(f.filename.as_str());
        prefix.append("\n```\n");
        prefix.append(f.content.as_str());
        prefix.append("\n```\n\n");
        proof {
            assert(prefix@ =~= head + file_blocks(files.deep_view().take(i + 1)));
        }
        i = i + 1;
    }
    assert(files.deep_view().take(n as int) =~= files.deep_view());
    prefix.append("--- End of Files ---\n\n");
    prefix
}

/// The label of a message's author, as text.
fn speaker_text(role: Role) -> (s: &'static str)
    ensures
        s@ == speaker(role),
{
    match role {
        Role::User => "User",
        Role::Assistant => "Assistant",
    }
}

/// The prompt of a single turn for `messages` and `files`.
pub fn build_single_prompt(messages: &Vec<Message>, files: &Vec<FileContext>) -> (r: String)
    ensures
        r@ == single_prompt(messages.deep_view(), files.deep_view()),
{
    let file_prefix = build_file_prefix(files);
    if messages.len() == 1 && messages[0].role == Role::User {
        return concat2(file_prefix.as_str(), messages[0].content.as_str());
    }
    let mut prompt = file_prefix;
    let ghost head = prompt@;
    let n = messages.len();
    let mut i: usize = 0;
    while i < n
        invariant
            n == messages@.len(),
            i <= n,
            prompt@ == head + transcript(messages.deep_view().take(i as int)),
        decreases n - i,
    {
        assert(messages.deep_view().take(i + 1).drop_last() =~= messages.deep_view().take(
            i as int,
        ));
        let m = &messages[i];
        prompt.append(speaker_text(m.role));
        prompt.append(": ");
        prompt.append(m.content.as_str());
        prompt.append("\n\n");
        proof {
            assert(prompt@ =~= head + transcript(messages.deep_view().take(i + 1)));
        }
        i = i + 1;
    }
    assert(messages.deep_view().take(n as int) =~= messages.deep_view());
    prompt
}

/// A message of a conversation as the on-device model takes it.
#[derive(Debug)]
pub struct ChatMessage {
    pub role: &'static str,
    pub content: String,
}

/// The role name of a message's author for the model.
pub open spec fn role_name(role: Role) -> Seq<char> {
    match role {
        Role::User => "user"@,
        Role::Assistant => "assistant"@,
    }
}

/// The text the model gets for message `k` of `messages`: the file prefix goes
/// before the first message where there is a prefix and that message is the
/// user's.
pub open spec fn chat_content(messages: Seq<MessageView>, files: Seq<FileContextView>, k: int) -> Seq<
    char,
> {
    if k == 0 && file_prefix(files).len() > 0 && messages[0].role == Role::User {
        file_prefix(files) + messages[0].content
    } else {
        messages[k].content
    }
}

/// `chat` is the conversation of `request` as the model takes it: one message
/// for each of the request's, with its author's role name and its text (the
/// file prefix before the first message where that is the user's).
pub open spec fn is_chat_of(chat: Seq<ChatMessage>, request: GenerateRequest) -> bool {
    &&& chat.len() == request.messages@.len()
    &&& forall|k: int|
        0 <= k < chat.len() ==> (#[trigger] chat[k]).role@ == role_name(request.messages@[k].role)
            && chat[k].content@ == chat_content(
            request.messages.deep_view(),
            request.file_contexts.deep_view(),
            k,
        )
}

/// The conversation of `request` as the model takes it, message by message.
pub fn build_chat_messages(request: &GenerateRequest) -> (r: Vec<ChatMessage>)
    ensures
        is_chat_of(r@, *request),
{
    let file_prefix = build_file_prefix(&request.file_contexts);
    let mut chat: Vec<ChatMessage> = Vec::new();
    let n = request.messages.len();
    let mut i: usize = 0;
    while i < n
        invariant
            n == request.messages@.len(),
            i <= n,
            file_prefix@ == crate::prompt::file_prefix(request.file_contexts.deep_view()),
            chat@.len() == i,
            forall|k: int|
                0 <= k < i ==> (#[trigger] chat@[k]).role@ == role_name(request.messages@[k].role)
                    && chat@[k].content@ == chat_content(
                    request.messages.deep_view(),
                    request.file_contexts.deep_view(),
                    k,
                ),
        decreases n - i,
    {
        let m = &request.messages[i];
        let role: &'static str = match m.role {
            Role::User => "user",
            Role::Assistant => "assistant",
        };
        let content = if i == 0 && file_prefix.unicode_len() > 0 && m.role == Role::User {
            concat2(file_prefix.as_str(), m.content.as_str())
        } else {
            m.content.clone()
        };
        chat.push(ChatMessage { role, content });
        i = i + 1;
    }
    chat
}

/// How the on-device model is asked about a request.
#[derive(Debug)]
pub enum GenerationPlan {
    /// One prompt, with a system instruction (empty where there is none).
    SingleTurn { system: String, prompt: String },
    /// The conversation replayed message by message.
    MultiTurn { system_prompt: Option<String>, messages: Vec<ChatMessage> },
}

/// How `request` is put to the model: a conversation of more than one message
/// is replayed turn by turn; a single message becomes one prompt.
pub fn plan_generation(request: &GenerateRequest) -> (p: GenerationPlan)
    ensures
        request.messages@.len() > 1 ==> (p matches GenerationPlan::MultiTurn { system_prompt, messages }
            && system_prompt.deep_view() == request.system_prompt.deep_view() && is_chat_of(
            messages@,
            *request,
        )),
        request.messages@.len() <= 1 ==> (p matches GenerationPlan::SingleTurn { system, prompt }
            && system@ == (match request.system_prompt {
            Some(s) => s@,
            None => Seq::empty(),
        }) && prompt@ == single_prompt(
            request.messages.deep_view(),
            request.file_contexts.deep_view(),
        )),
{
    if request.messages.len() > 1 {
        GenerationPlan::MultiTurn {
            system_prompt: copy_text(&request.system_prompt),
            messages: build_chat_messages(request),
        }
    } else {
        let system = match &request.system_prompt {
            Some(s) => s.clone(),
            None => String::new(),
        };
        GenerationPlan::SingleTurn {
            system,
            prompt: build_single_prompt(&request.messages, &request.file_contexts),
        }
    }
}

/// Reads the model bridge's reply: the text of an `ok` reply; for an error
/// reply its kind and message; anything else is unexpected.
pub fn parse_response(ok: Option<String>, error: Option<(String, String)>, raw: &str) -> (r: Result<
    String,
    String,
>)
    ensures
        ok matches Some(t) ==> r == Ok::<String, String>(t),
        ok is None ==> (error matches Some((kind, message)) ==> (r matches Err(m) && m@ == kind@
            + ": "@ + message@)),
        ok is None && error is None ==> (r matches Err(m) && m@
            == "unexpected response from AI bridge: "@ + raw@),
{
    match ok {
        Some(t) => Ok(t),
        None => match error {
            Some((kind, message)) => {
                let mut m = concat2(kind.as_str(), ": ");
                m.append(message.as_str());
                Err(m)
            },
            None => Err(concat2("unexpected response from AI bridge: ", raw)),
        },
    }
}

/// The provider's answer for the bridge's outcome: its text, as the answer of
/// the on-device provider, or the failure.
pub fn response_from_bridge(outcome: Result<String, String>) -> (r: Result<
    GenerateResponse,
    ProviderError,
>)
    ensures
        outcome matches Ok(t) ==> (r matches Ok(resp) && resp.content == t
            && resp.provider@ == "apple-intelligence"@),
        outcome matches Err(e) ==> r == Err::<GenerateResponse, ProviderError>(
            ProviderError::GenerationFailed(e),
        ),
{
    match outcome {
        Ok(content) => Ok(
            GenerateResponse {
                content,
                provider: AppleIntelligenceProvider::provider_name().to_owned(),
            },
        ),
        Err(e) => Err(ProviderError::GenerationFailed(e)),
    }
}

} // verus!
