use rintel::provider::{AiProvider, AppleIntelligenceProvider};
use rintel::session::Session;
use rintel::store::SessionManager;
use rintel::types::{GenerateRequest, GenerateResponse, ProviderError, Role};

struct MockProvider;

impl AiProvider for MockProvider {
    fn name(&self) -> &str {
        "mock"
    }

    fn is_available(&self) -> bool {
        true
    }

    fn generate(&self, request: &GenerateRequest) -> Result<GenerateResponse, ProviderError> {
        let last = request.messages.last().map_or("", |m| m.content.as_str());
        Ok(GenerateResponse {
            content: format!("echo: {last}"),
            provider: "mock".to_string(),
        })
    }
}

fn now_nanos() -> i128 {
    let t = chrono::Utc::now();
    t.timestamp() as i128 * 1_000_000_000 + t.timestamp_subsec_nanos() as i128
}

#[test]
fn provider_does_not_panic() {
    let provider = AppleIntelligenceProvider::new();
    let _ = provider.is_available();
}

#[test]
fn send_appends_messages() {
    let mut session = Session::new(None, None);
    let provider = MockProvider;

    let reply = session.send(&provider, "hello").unwrap();
    assert_eq!(reply, "echo: hello");
    assert_eq!(session.messages.len(), 2);
    assert_eq!(session.messages[0].role, Role::User);
    assert_eq!(session.messages[1].role, Role::Assistant);
}

#[test]
fn send_preserves_history() {
    let mut session = Session::new(Some("system".to_string()), None);
    let provider = MockProvider;

    session.send(&provider, "first").unwrap();
    session.send(&provider, "second").unwrap();

    assert_eq!(session.messages.len(), 4);
    assert_eq!(session.messages[2].content, "second");
}

#[test]
fn is_expired_without_ttl() {
    let session = Session::new(None, None);
    assert!(!session.is_expired());
}

#[test]
fn is_expired_with_future_ttl() {
    let session = Session::new(None, Some(3600));
    assert!(!session.is_expired());
}

#[test]
fn is_expired_with_past_ttl() {
    let mut session = Session::new(None, Some(0));
    // Force last_active to the past
    session.last_active = now_nanos() - 10 * 1_000_000_000;
    assert!(session.is_expired());
}

#[test]
fn list_returns_sessions_sorted() {
    let manager = SessionManager::new("sessions");

    let s1 = Session::new(None, None);
    let mut s2 = Session::new(None, None);
    s2.last_active = s1.last_active + 10 * 1_000_000_000;
    let s2_id = s2.id;

    let list = manager.list(&vec![s1, s2]);
    assert_eq!(list.len(), 2);
    assert_eq!(list[0].id, s2_id); // newer first
}

#[test]
fn cleanup_removes_expired() {
    let manager = SessionManager::new("sessions");

    let active = Session::new(None, Some(3600));
    let mut expired = Session::new(None, Some(1));
    expired.last_active = now_nanos() - 100 * 1_000_000_000;

    let listed = manager.list(&vec![active, expired]);
    let removed = manager.cleanup_expired(&listed);
    assert_eq!(removed.len(), 1);
    let remaining: Vec<_> = listed.iter().filter(|s| !removed.contains(&s.id)).collect();
    assert_eq!(remaining.len(), 1);
}
