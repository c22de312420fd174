use rintel::chat::{
    check_resumable, classify_input, handle_command, resumed_line, session_banner, ChatInput,
    CommandResult, LineStyle,
};
use rintel::dto::{FileContextInfoDto, SessionInfoDto, SessionSummaryDto};
use rintel::prompt::{
    build_chat_messages, build_file_prefix, build_single_prompt, parse_response, plan_generation,
    response_from_bridge, GenerationPlan,
};
use rintel::provider::{AiProvider, AppleIntelligenceProvider};
use rintel::session::Session;
use rintel::store::SessionSummary;
use rintel::types::{FileContext, GenerateRequest, GenerateResponse, Message, ProviderError, Role};

const ID: u128 = 0xabcdef01_2345_4678_9abc_def012345678;

fn msg(role: Role, content: &str) -> Message {
    Message { role, content: content.to_string(), timestamp: 0 }
}

fn file(name: &str, content: &str) -> FileContext {
    FileContext { filename: name.to_string(), content: content.to_string() }
}

struct FailingProvider;

impl AiProvider for FailingProvider {
    fn name(&self) -> &str {
        "failing"
    }

    fn is_available(&self) -> bool {
        true
    }

    fn generate(&self, _request: &GenerateRequest) -> Result<GenerateResponse, ProviderError> {
        Err(ProviderError::Other("boom".to_string()))
    }
}

#[test]
fn classify_trims_and_splits_commands_from_messages() {
    assert!(matches!(classify_input("   "), ChatInput::Blank));
    assert!(matches!(classify_input(""), ChatInput::Blank));
    match classify_input("  /quit \n") {
        ChatInput::Command(c) => assert_eq!(c, "/quit"),
        _ => panic!("expected a command"),
    }
    match classify_input("\thello there ") {
        ChatInput::Message(m) => assert_eq!(m, "hello there"),
        _ => panic!("expected a message"),
    }
}

#[test]
fn commands_decide_what_the_loop_does() {
    let s = Session::new_at(ID, 0, None, None);
    for q in ["/quit", "/exit", "/q"] {
        let (r, out) = handle_command(q, &s, 0);
        assert_eq!(r, CommandResult::Quit);
        assert!(out.is_empty());
    }
    assert_eq!(handle_command("/clear", &s, 0).0, CommandResult::Clear);
    let (r, out) = handle_command("/help", &s, 0);
    assert_eq!(r, CommandResult::Continue);
    assert_eq!(out.len(), 6);
    assert_eq!(out[0].text, "Commands:");
    assert_eq!(out[0].style, LineStyle::Bold);
    let (r, out) = handle_command("/nope", &s, 0);
    assert_eq!(r, CommandResult::Continue);
    assert_eq!(out[0].text, "Unknown command: /nope. Type /help for commands.");
    assert_eq!(out[0].style, LineStyle::Warning);
}

#[test]
fn files_and_info_commands_describe_the_session() {
    let mut s = Session::new_at(ID, 0, Some("sys".to_string()), Some(3600));
    let (_, out) = handle_command("/files", &s, 0);
    assert_eq!(out[0].text, "No files loaded.");
    let (_, out) = handle_command("/files", &s, 1);
    assert!(out.is_empty());
    s.add_file_context("/x/notes.md", "héllo".to_string());
    let (_, out) = handle_command("/files", &s, 0);
    assert_eq!(out[0].text, "  notes.md (6 bytes)");
    let (_, out) = handle_command("/info", &s, 0);
    let texts: Vec<&str> = out.iter().map(|l| l.text.as_str()).collect();
    assert_eq!(texts, vec![
        "  Session:  abcdef01-2345-4678-9abc-def012345678",
        "  Messages: 0",
        "  System:   sys",
        "  TTL:      3600s",
    ]);
}

#[test]
fn expired_sessions_cannot_be_resumed() {
    let s = Session::new_at(ID, 0, None, Some(10));
    assert_eq!(check_resumable(&s, 5_000_000_000), Ok(()));
    assert_eq!(
        check_resumable(&s, 11_000_000_000),
        Err("session abcdef01-2345-4678-9abc-def012345678 has expired".to_string())
    );
    assert_eq!(resumed_line(&s), "Resumed session abcdef01 (0 messages)");
    assert_eq!(session_banner(&s), "Session: abcdef01 | Type /help for commands, /quit to exit");
}

#[test]
fn expiry_counts_whole_seconds_past_the_lifetime() {
    let s = Session::new_at(ID, 1_000_000_000, None, Some(10));
    assert!(!s.is_expired_at(1_000_000_000));
    assert!(!s.is_expired_at(11_999_999_999));
    assert!(s.is_expired_at(12_000_000_000));
    assert!(!s.is_expired_at(-100_000_000_000));
    let zero = Session::new_at(ID, 0, None, Some(0));
    assert!(!zero.is_expired_at(999_999_999));
    assert!(zero.is_expired_at(1_000_000_000));
    let far = Session::new_at(ID, i128::MIN, None, Some(u64::MAX));
    assert!(far.is_expired_at(i128::MAX));
    let none = Session::new_at(ID, 0, None, None);
    assert!(!none.is_expired_at(i128::MAX));
}

#[test]
fn new_sessions_carry_random_identifiers() {
    let a = Session::new(None, Some(5));
    let b = Session::new(None, Some(5));
    assert_ne!(a.id, b.id);
    assert_eq!((a.id >> 76) & 0xf, 4);
    assert_eq!((a.id >> 62) & 0x3, 2);
    assert_eq!(a.created_at, a.last_active);
    let t = chrono::Utc::now();
    let now = t.timestamp() as i128 * 1_000_000_000 + t.timestamp_subsec_nanos() as i128;
    assert!(now - a.created_at < 60_000_000_000);
}

#[test]
fn failed_send_keeps_the_question_only() {
    let mut s = Session::new_at(ID, 7, None, None);
    let r = s.send(&FailingProvider, "why");
    assert!(matches!(r, Err(ProviderError::Other(ref m)) if m == "boom"));
    assert_eq!(s.messages.len(), 1);
    assert_eq!(s.messages[0].content, "why");
    assert_eq!(s.last_active, 7);
    let r = s.send(&AppleIntelligenceProvider::new(), "again");
    assert!(matches!(r, Err(ProviderError::NotAvailable)));
    assert_eq!(s.messages.len(), 2);
}

#[test]
fn begin_and_finish_send_build_the_conversation() {
    let mut s = Session::new_at(ID, 0, Some("sys".to_string()), None);
    s.add_file_context("f.txt", "data".to_string());
    let req = s.begin_send("q", 5);
    assert_eq!(req.system_prompt.as_deref(), Some("sys"));
    assert_eq!(req.messages.len(), 1);
    assert_eq!(req.messages[0].content, "q");
    assert_eq!(req.messages[0].timestamp, 5);
    assert_eq!(req.file_contexts[0].filename, "f.txt");
    let r = s.finish_send(Ok(GenerateResponse { content: "a".to_string(), provider: "p".to_string() }), 6, 7);
    assert_eq!(r.unwrap(), "a");
    assert_eq!(s.messages[1].role, Role::Assistant);
    assert_eq!(s.messages[1].timestamp, 6);
    assert_eq!(s.last_active, 7);
    s.clear_history();
    assert!(s.messages.is_empty());
}

#[test]
fn file_context_names_use_last_component() {
    let mut s = Session::new_at(ID, 0, None, None);
    s.add_file_context("src/main.rs", "a".to_string());
    s.add_file_context("/", "b".to_string());
    s.add_file_context("dir/..", "c".to_string());
    let names: Vec<&str> = s.file_contexts.iter().map(|f| f.filename.as_str()).collect();
    assert_eq!(names, vec!["main.rs", "/", "dir/.."]);
}

#[test]
fn file_prefix_frames_each_file() {
    assert_eq!(build_file_prefix(&vec![]), "");
    let p = build_file_prefix(&vec![file("a.rs", "fn a() {}"), file("b", "x")]);
    assert_eq!(
        p,
        "--- Reference Files ---\n\n### a.rs\n```\nfn a() {}\n```\n\n### b\n```\nx\n```\n\n--- End of Files ---\n\n"
    );
}

#[test]
fn single_prompt_flattens_the_conversation() {
    let files = vec![file("f", "c")];
    let p = build_single_prompt(&vec![msg(Role::User, "hi")], &vec![]);
    assert_eq!(p, "hi");
    let p = build_single_prompt(&vec![msg(Role::User, "hi")], &files);
    assert!(p.ends_with("--- End of Files ---\n\nhi"));
    let p = build_single_prompt(&vec![msg(Role::User, "q"), msg(Role::Assistant, "a")], &vec![]);
    assert_eq!(p, "User: q\n\nAssistant: a\n\n");
    let p = build_single_prompt(&vec![msg(Role::Assistant, "a")], &vec![]);
    assert_eq!(p, "Assistant: a\n\n");
}

#[test]
fn chat_messages_put_files_before_first_user_message() {
    let req = GenerateRequest {
        system_prompt: None,
        messages: vec![msg(Role::User, "q"), msg(Role::Assistant, "a")],
        file_contexts: vec![file("f", "c")],
    };
    let chat = build_chat_messages(&req);
    assert_eq!(chat.len(), 2);
    assert_eq!(chat[0].role, "user");
    assert!(chat[0].content.starts_with("--- Reference Files ---"));
    assert!(chat[0].content.ends_with("q"));
    assert_eq!(chat[1].role, "assistant");
    assert_eq!(chat[1].content, "a");
    match plan_generation(&req) {
        GenerationPlan::MultiTurn { messages, .. } => assert_eq!(messages.len(), 2),
        _ => panic!("expected multi-turn"),
    }
    let single = GenerateRequest { system_prompt: None, messages: vec![msg(Role::User, "q")], file_contexts: vec![] };
    match plan_generation(&single) {
        GenerationPlan::SingleTurn { system, prompt } => {
            assert_eq!(system, "");
            assert_eq!(prompt, "q");
        }
        _ => panic!("expected single turn"),
    }
}

#[test]
fn bridge_replies_are_read() {
    assert_eq!(parse_response(Some("t".to_string()), None, "{}"), Ok("t".to_string()));
    assert_eq!(
        parse_response(None, Some(("refused".to_string(), "no".to_string())), "{}"),
        Err("refused: no".to_string())
    );
    assert_eq!(
        parse_response(None, None, "{?}"),
        Err("unexpected response from AI bridge: {?}".to_string())
    );
    let ok = response_from_bridge(Ok("x".to_string())).unwrap();
    assert_eq!(ok.provider, "apple-intelligence");
    assert!(matches!(response_from_bridge(Err("e".to_string())), Err(ProviderError::GenerationFailed(ref m)) if m == "e"));
}

#[test]
fn provider_errors_describe_themselves() {
    assert_eq!(ProviderError::NotAvailable.message(), "provider not available");
    assert_eq!(ProviderError::GenerationFailed("x".to_string()).message(), "generation failed: x");
    assert_eq!(ProviderError::Other("y".to_string()).message(), "y");
    let p = AppleIntelligenceProvider::default();
    assert_eq!(p.name(), "apple-intelligence");
    assert!(!p.is_available());
}

#[test]
fn interface_values_carry_text_identifiers() {
    let mut s = Session::new_at(ID, 0, None, None);
    assert_eq!(FileContextInfoDto::last_added(&s).err(), Some("failed to add file context".to_string()));
    s.add_file_context("a/b.txt", "abc".to_string());
    let info = FileContextInfoDto::last_added(&s).unwrap();
    assert_eq!(info.filename, "b.txt");
    assert_eq!(info.size, 3);
    assert_eq!(SessionInfoDto::of(&s).id, "abcdef01-2345-4678-9abc-def012345678");
    let d = SessionSummaryDto::from_summary(SessionSummary {
        id: ID,
        title: None,
        created_at: 0,
        last_active: 3,
        message_count: 1,
        expired: false,
    });
    assert_eq!(d.id, "abcdef01-2345-4678-9abc-def012345678");
    assert_eq!(d.last_active, 3);
}

#[test]
fn command_lines_carry_their_styles() {
    let mut s = Session::new_at(ID, 0, None, Some(60));
    let (_, out) = handle_command("/help", &s, 0);
    let styles: Vec<LineStyle> = out.iter().map(|l| l.style).collect();
    assert_eq!(styles, vec![
        LineStyle::Bold,
        LineStyle::Plain,
        LineStyle::Plain,
        LineStyle::Plain,
        LineStyle::Plain,
        LineStyle::Plain,
    ]);
    let (_, out) = handle_command("/files", &s, 0);
    assert_eq!(out[0].style, LineStyle::Dimmed);
    s.add_file_context("a.txt", "x".to_string());
    s.add_file_context("b.txt", "yz".to_string());
    let (_, out) = handle_command("/files", &s, 0);
    assert_eq!(out.len(), 2);
    assert!(out.iter().all(|l| l.style == LineStyle::Plain));
    let (_, out) = handle_command("/info", &s, 0);
    assert_eq!(out.len(), 3);
    assert!(out.iter().all(|l| l.style == LineStyle::Plain));
}

#[test]
fn classify_trims_unicode_white_space() {
    match classify_input("\u{3000}\u{a0}hi there\u{2028}\u{85}") {
        ChatInput::Message(m) => assert_eq!(m, "hi there"),
        _ => panic!("expected a message"),
    }
    assert!(matches!(classify_input("\u{2000}\u{200a}\u{feff}"), ChatInput::Message(_)));
    assert!(matches!(classify_input("\u{2000}\u{200a}\u{205f}\u{1680}\r\n"), ChatInput::Blank));
    match classify_input("\u{202f}/info\u{2029}") {
        ChatInput::Command(c) => assert_eq!(c, "/info"),
        _ => panic!("expected a command"),
    }
}

#[test]
fn multi_turn_plan_replays_the_conversation() {
    let req = GenerateRequest {
        system_prompt: Some("be brief".to_string()),
        messages: vec![msg(Role::User, "one"), msg(Role::Assistant, "two"), msg(Role::User, "three")],
        file_contexts: vec![],
    };
    match plan_generation(&req) {
        GenerationPlan::MultiTurn { system_prompt, messages } => {
            assert_eq!(system_prompt, Some("be brief".to_string()));
            let got: Vec<(&str, &str)> = messages.iter().map(|m| (m.role, m.content.as_str())).collect();
            assert_eq!(got, vec![("user", "one"), ("assistant", "two"), ("user", "three")]);
        }
        _ => panic!("expected multi-turn"),
    }
}
