//! The values exchanged with a language model provider.
use vstd::prelude::*;

use crate::text::concat2;

verus! {

/// Who wrote a message in a conversation.
#[derive(Debug, Clone, Copy, PartialEq, Eq, Structural)]
pub enum Role {
    User,
    Assistant,
}

/// A message of a conversation. `timestamp` is the time the message was made,
/// in nanoseconds since the Unix epoch.
#[derive(Debug)]
pub struct Message {
    pub role: Role,
    pub content: String,
    pub timestamp: i128,
}

/// The mathematical value of a message.
pub struct MessageView {
    pub role: Role,
    pub content: Seq<char>,
    pub timestamp: i128,
}

impl DeepView for Message {
    type V = MessageView;

    open spec fn deep_view(&self) -> MessageView {
        MessageView { role: self.role, content: self.content@, timestamp: self.timestamp }
    }
}

impl Clone for Message {
    fn clone(&self) -> (r: Self)
        ensures
            r == *self,
    {
        Message { role: self.role, content: self.content.clone(), timestamp: self.timestamp }
    }
}

/// A file whose contents are handed to the model together with the conversation.
#[derive(Debug)]
pub struct FileContext {
    pub filename: String,
    pub content: String,
}

/// The mathematical value of a file context.
pub struct FileContextView {
    pub filename: Seq<char>,
    pub content: Seq<char>,
}

impl DeepView for FileContext {
    type V = FileContextView;

    open spec fn deep_view(&self) -> FileContextView {
        FileContextView { filename: self.filename@, content: self.content@ }
    }
}

impl Clone for FileContext {
    fn clone(&self) -> (r: Self)
        ensures
            r == *self,
    {
        FileContext { filename: self.filename.clone(), content: self.content.clone() }
    }
}

/// What a provider is asked to answer: the whole conversation so far.
#[derive(Debug)]
pub struct GenerateRequest {
    pub system_prompt: Option<String>,
    pub messages: Vec<Message>,
    pub file_contexts: Vec<FileContext>,
}

/// The mathematical value of a request.
pub struct GenerateRequestView {
    pub system_prompt: Option<Seq<char>>,
    pub messages: Seq<MessageView>,
    pub file_contexts: Seq<FileContextView>,
}

impl DeepView for GenerateRequest {
    type V = GenerateRequestView;

    open spec fn deep_view(&self) -> GenerateRequestView {
        GenerateRequestView {
            system_prompt: self.system_prompt.deep_view(),
            messages: self.messages.deep_view(),
            file_contexts: self.file_contexts.deep_view(),
        }
    }
}

/// A provider's answer.
#[derive(Debug)]
pub struct GenerateResponse {
    pub content: String,
    pub provider: String,
}

impl Clone for GenerateResponse {
    fn clone(&self) -> (r: Self)
        ensures
            r == *self,
    {
        GenerateResponse { content: self.content.clone(), provider: self.provider.clone() }
    }
}

/// Why a provider gave no answer.
#[derive(Debug)]
pub enum ProviderError {
    NotAvailable,
    GenerationFailed(String),
    Other(String),
}

/// The text that describes a provider error.
pub open spec fn provider_error_text(e: ProviderError) -> Seq<char> {
    match e {
        ProviderError::NotAvailable => "provider not available"@,
        ProviderError::GenerationFailed(m) => "generation failed: "@ + m@,
        ProviderError::Other(m) => m@,
    }
}

impl ProviderError {
    /// The text that describes this error.
    pub fn message(&self) -> (r: String)
        ensures
            r@ == provider_error_text(*self),
    {
        match self {
            ProviderError::NotAvailable => "provider not available".to_owned(),
            ProviderError::GenerationFailed(m) => concat2("generation failed: ", m.as_str()),
            ProviderError::Other(m) => m.clone(),
        }
    }
}

} // verus!
