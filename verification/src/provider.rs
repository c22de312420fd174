//! The interface of a language model provider, and the on-device provider.
use vstd::prelude::*;

use crate::types::{GenerateRequest, GenerateRequestView, GenerateResponse, ProviderError};

verus! {

/// A language model provider. Providers keep no conversation state: each request
/// carries the whole history. `generate` blocks; callers decide on which thread
/// it runs. Implementations belong to the users of this library: each says by
/// `may_answer` what it may reply, which is all that is known of its replies.
pub trait AiProvider: Send + Sync {
    /// Whether `reply` may be this provider's reply to `request`; unless an
    /// implementation says more, any reply may be.
    open spec fn may_answer(
        &self,
        request: GenerateRequestView,
        reply: Result<GenerateResponse, ProviderError>,
    ) -> bool {
        true
    }

    /// The provider's name, such as "apple-intelligence".
    fn name(&self) -> &str;

    /// Whether the provider can be used in the present environment.
    fn is_available(&self) -> bool;

    /// Generates an answer to the conversation in `request`.
    fn generate(&self, request: &GenerateRequest) -> (r: Result<GenerateResponse, ProviderError>)
        ensures
            self.may_answer(request.deep_view(), r),
    ;
}

/// The on-device model of the operating system. On this platform the model is
/// not present: the provider reports itself unavailable and refuses every request.
#[derive(Debug, Clone, Copy)]
pub struct AppleIntelligenceProvider;

impl AppleIntelligenceProvider {
    pub fn new() -> (p: Self) {
        AppleIntelligenceProvider
    }

    /// The name under which this provider reports its answers.
    pub fn provider_name() -> (s: &'static str)
        ensures
            s@ == "apple-intelligence"@,
    {
        "apple-intelligence"
    }
}

impl Default for AppleIntelligenceProvider {
    fn default() -> (p: Self) {
        AppleIntelligenceProvider::new()
    }
}

impl AiProvider for AppleIntelligenceProvider {
    open spec fn may_answer(
        &self,
        request: GenerateRequestView,
        reply: Result<GenerateResponse, ProviderError>,
    ) -> bool {
        reply matches Err(ProviderError::NotAvailable)
    }

    fn name(&self) -> (s: &str)
        ensures
            s@ == "apple-intelligence"@,
    {
        Self::provider_name()
    }

    fn is_available(&self) -> (b: bool)
        ensures
            !b,
    {
        false
    }

    fn generate(&self, request: &GenerateRequest) -> (r: Result<GenerateResponse, ProviderError>)
        ensures
            r matches Err(ProviderError::NotAvailable),
    {
        Err(ProviderError::NotAvailable)
    }
}

} // verus!
