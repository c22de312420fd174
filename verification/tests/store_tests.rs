use rintel::cli::{cleanup_line, deleted_line, render_list, render_session, short_id_text};
use rintel::config::SessionConfig;
use rintel::session::Session;
use rintel::store::{is_session_file, ResolveError, SessionManager, SessionSummary};
use rintel::types::{Message, Role};

const ID_A: u128 = 0x0d9b2181_1c2d_4e3f_8a4b_5c6d7e8f9012;
const ID_B: u128 = 0x0d9b9999_0000_4000_8000_000000000001;
const ID_C: u128 = 0xabcdef01_2345_4678_9abc_def012345678;

fn summary(id: u128, last_active: i128, expired: bool) -> SessionSummary {
    SessionSummary { id, title: None, created_at: 0, last_active, message_count: 0, expired }
}

fn session(id: u128, last_active: i128, ttl: Option<u64>) -> Session {
    let mut s = Session::new_at(id, last_active, None, ttl);
    s.last_active = last_active;
    s
}

#[test]
fn text_form_of_identifier_is_hyphenated_lower_case() {
    assert_eq!(deleted_line(ID_C), "Deleted session abcdef01-2345-4678-9abc-def012345678");
    assert_eq!(short_id_text(ID_C), "abcdef01");
}

#[test]
fn session_path_is_identifier_with_json_extension() {
    let m = SessionManager::new("/tmp/store");
    assert_eq!(m.session_path(ID_C), "/tmp/store/abcdef01-2345-4678-9abc-def012345678.json");
    let m = SessionManager::new("/tmp/store/");
    assert_eq!(m.session_path(ID_C), "/tmp/store/abcdef01-2345-4678-9abc-def012345678.json");
    assert_eq!(m.storage_dir(), "/tmp/store/");
}

#[test]
fn session_files_have_json_extension() {
    assert!(is_session_file("abc.json"));
    assert!(is_session_file("a.json"));
    assert!(!is_session_file(".json"));
    assert!(!is_session_file("abc.jsonl"));
    assert!(!is_session_file("abc.txt"));
    assert!(!is_session_file("json"));
}

#[test]
fn list_orders_newest_first_and_keeps_ties_in_order() {
    let m = SessionManager::new("d");
    let sessions = vec![
        session(ID_A, 5_000_000_000, None),
        session(ID_B, 9_000_000_000, None),
        session(ID_C, 5_000_000_000, None),
    ];
    let list = m.list_at(&sessions, 10_000_000_000);
    let ids: Vec<u128> = list.iter().map(|s| s.id).collect();
    assert_eq!(ids, vec![ID_B, ID_A, ID_C]);
}

#[test]
fn list_marks_expired_sessions() {
    let m = SessionManager::new("d");
    let sessions = vec![session(ID_A, 0, Some(10)), session(ID_B, 0, Some(20)), session(ID_C, 0, None)];
    let list = m.list_at(&sessions, 15_000_000_000);
    let expired: Vec<(u128, bool)> = list.iter().map(|s| (s.id, s.expired)).collect();
    assert_eq!(expired, vec![(ID_A, true), (ID_B, false), (ID_C, false)]);
}

#[test]
fn cleanup_returns_expired_identifiers_in_order() {
    let m = SessionManager::new("d");
    let listed = vec![summary(ID_A, 3, true), summary(ID_B, 2, false), summary(ID_C, 1, true)];
    assert_eq!(m.cleanup_expired(&listed), vec![ID_A, ID_C]);
    assert_eq!(m.cleanup_expired(&vec![summary(ID_B, 1, false)]), Vec::<u128>::new());
}

#[test]
fn resolve_prefix_finds_the_single_match() {
    let m = SessionManager::new("d");
    let listed = vec![summary(ID_A, 3, false), summary(ID_B, 2, false), summary(ID_C, 1, false)];
    assert_eq!(m.resolve_prefix(&listed, "0d9b2181").ok(), Some(ID_A));
    assert_eq!(m.resolve_prefix(&listed, "abc").ok(), Some(ID_C));
    assert_eq!(
        m.resolve_prefix(&listed, "abcdef01-2345-4678-9abc-def012345678").ok(),
        Some(ID_C)
    );
}

#[test]
fn resolve_prefix_reports_no_match() {
    let m = SessionManager::new("d");
    let listed = vec![summary(ID_A, 3, false)];
    match m.resolve_prefix(&listed, "ffff") {
        Err(e) => {
            assert!(matches!(e, ResolveError::NoMatch(_)));
            assert_eq!(e.message(), "no session matching prefix 'ffff'");
        }
        Ok(_) => panic!("expected no match"),
    }
}

#[test]
fn resolve_prefix_reports_ambiguity() {
    let m = SessionManager::new("d");
    let listed = vec![summary(ID_A, 3, false), summary(ID_B, 2, false), summary(ID_C, 1, false)];
    match m.resolve_prefix(&listed, "0d9b") {
        Err(e) => {
            assert!(matches!(e, ResolveError::Ambiguous(_, 2)));
            assert_eq!(e.message(), "ambiguous prefix '0d9b': 2 sessions match");
        }
        Ok(_) => panic!("expected ambiguity"),
    }
    // the empty prefix matches every session
    assert!(matches!(m.resolve_prefix(&listed, ""), Err(ResolveError::Ambiguous(_, 3))));
}

#[test]
fn config_places_sessions_under_config_directory() {
    let c = SessionConfig::from_locations(Some("/xdg".to_string()), Some("/home/u".to_string()));
    assert_eq!(c.storage_dir, "/xdg/rintel/sessions");
    assert_eq!(c.default_ttl, Some(3600));
    let c = SessionConfig::from_locations(None, Some("/home/u".to_string()));
    assert_eq!(c.storage_dir, "/home/u/.config/rintel/sessions");
    let c = SessionConfig::from_locations(None, None);
    assert_eq!(c.storage_dir, "./.config/rintel/sessions");
    let c = SessionConfig::from_locations(Some(String::new()), None);
    assert_eq!(c.storage_dir, "rintel/sessions");
}

#[test]
fn list_lines_show_each_session() {
    let mut s1 = summary(ID_C, 2, true);
    s1.title = Some("notes".to_string());
    s1.message_count = 12;
    let s2 = summary(ID_A, 1, false);
    let lines = render_list(&vec![s1, s2], &vec!["T1".to_string(), "T2".to_string()]);
    assert_eq!(lines, vec![
        "abcdef01  notes  (12 msgs, T1) [expired]".to_string(),
        "0d9b2181  (untitled)  (0 msgs, T2)".to_string(),
    ]);
    assert_eq!(render_list(&vec![], &vec![]), vec!["No sessions found.".to_string()]);
}

#[test]
fn show_lines_give_header_and_messages() {
    let mut s = Session::new_at(ID_C, 0, Some("be brief".to_string()), Some(60));
    s.title = Some("t".to_string());
    s.add_file_context("dir/a.rs", "x".to_string());
    s.add_file_context("b.txt", "y".to_string());
    s.messages.push(Message { role: Role::User, content: "hi".to_string(), timestamp: 0 });
    s.messages.push(Message { role: Role::Assistant, content: "hello".to_string(), timestamp: 0 });
    let lines = render_session(&s, "C", "A");
    assert_eq!(lines, vec![
        "Session: abcdef01-2345-4678-9abc-def012345678",
        "Title:   t",
        "Created: C",
        "Active:  A",
        "TTL:     60s",
        "System:  be brief",
        "Files:   a.rs, b.txt",
        "---",
        "You: hi",
        "",
        "AI: hello",
        "",
    ]);
}

#[test]
fn cleanup_line_counts_removed_sessions() {
    assert_eq!(cleanup_line(0), "Removed 0 expired session(s).");
    assert_eq!(cleanup_line(1234), "Removed 1234 expired session(s).");
}

#[test]
fn saved_session_files_are_listed_and_read_back() {
    let s = Session::new(None, None);
    let m = SessionManager::new("/data");
    let path = m.session_path(s.id);
    let name = path.rsplit('/').next().unwrap().to_string();
    assert!(is_session_file(&name));
    let text = name.trim_end_matches(".json").to_string();
    let history_name = format!("{text}.jsonl");
    assert_eq!(rintel::history::session_id_from_file_name(&history_name), Some(text.clone()));
    let listed = vec![summary(s.id, 0, false), summary(ID_A, 0, false)];
    assert_eq!(m.resolve_prefix(&listed, &text).ok(), Some(s.id));
}
