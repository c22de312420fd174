use rintel::history::{
    check_session_id, extract_message_content, extract_session_summary, get_claude_session,
    input_preview, is_project_dir_name, session_file_path, session_id_from_file_name,
    sort_claude_sessions, sort_projects, validate_path_component, validate_under_base,
    ClaudeProject, ClaudeRecord, ClaudeSessionSummary, ContentBlock, ProjectPathDecoder,
    RecordContent,
};

fn record(msg_type: &str, content: RecordContent) -> ClaudeRecord {
    ClaudeRecord {
        msg_type: msg_type.to_string(),
        is_compact_summary: false,
        is_sidechain: false,
        slug: None,
        timestamp: None,
        git_branch: None,
        uuid: None,
        content,
    }
}

fn block(block_type: &str, text: Option<&str>) -> ContentBlock {
    ContentBlock {
        block_type: block_type.to_string(),
        text: text.map(String::from),
        name: None,
        input: None,
    }
}

fn decode_with(dir_name: &str, existing: &[&str]) -> (String, Vec<String>) {
    let mut d = ProjectPathDecoder::start(dir_name);
    let mut probes = Vec::new();
    while let Some(p) = d.next_probe() {
        let found = existing.contains(&p.as_str());
        probes.push(p);
        d.observe(found);
    }
    (d.result(), probes)
}

#[test]
fn path_components_are_validated() {
    assert!(validate_path_component("-Users-me-proj").is_ok());
    for bad in ["", "a/b", "a\\b", "a..b", ".hidden", ".."] {
        assert_eq!(validate_path_component(bad), Err("invalid path component".to_string()));
    }
}

#[test]
fn paths_must_stay_under_base() {
    assert_eq!(validate_under_base(Ok("/base/p".to_string()), Ok("/base".to_string())), Ok(()));
    assert_eq!(
        validate_under_base(Ok("/other/p".to_string()), Ok("/base".to_string())),
        Err("path escapes base directory".to_string())
    );
    assert_eq!(
        validate_under_base(Ok("/basement".to_string()), Ok("/base".to_string())),
        Err("path escapes base directory".to_string())
    );
    assert_eq!(
        validate_under_base(Err("gone".to_string()), Ok("/base".to_string())),
        Err("cannot resolve path: gone".to_string())
    );
    assert_eq!(
        validate_under_base(Ok("/base/p".to_string()), Err("gone".to_string())),
        Err("cannot resolve base: gone".to_string())
    );
}

#[test]
fn decoding_prefers_longest_existing_run() {
    let (path, probes) = decode_with("-home-me-my-proj", &["/home", "/home/me", "/home/me/my-proj"]);
    assert_eq!(path, "/home/me/my-proj");
    assert_eq!(probes[0], "/home-me-my-proj");
    let (path, _) = decode_with("-home-me-my-proj", &["/home", "/home/me"]);
    assert_eq!(path, "/home/me/my/proj");
}

#[test]
fn decoding_without_existing_paths_replaces_every_dash() {
    let (path, probes) = decode_with("-a-b-c", &[]);
    assert_eq!(path, "/a/b/c");
    assert_eq!(probes, vec!["/a-b-c", "/a-b", "/a", "/a/b-c", "/a/b", "/a/b/c"]);
    assert!(is_project_dir_name("-a"));
    assert!(!is_project_dir_name("memory"));
}

#[test]
fn session_file_names_must_be_uuids() {
    assert_eq!(
        session_id_from_file_name("0d9b2181-1c2d-4e3f-8a4b-5c6d7e8f9012.jsonl"),
        Some("0d9b2181-1c2d-4e3f-8a4b-5c6d7e8f9012".to_string())
    );
    assert_eq!(session_id_from_file_name("0d9b2181-1c2d-4e3f-8a4b-5c6d7e8f9012.json"), None);
    assert_eq!(session_id_from_file_name("notes.jsonl"), None);
    assert!(check_session_id("0d9b2181-1c2d-4e3f-8a4b-5c6d7e8f9012").is_ok());
    assert_eq!(check_session_id("x"), Err("invalid session id".to_string()));
    assert_eq!(session_file_path("/b", "p", "id"), "/b/p/id.jsonl");
}

#[test]
fn user_text_and_blocks_are_joined_by_lines() {
    let (t, tools) = extract_message_content(&RecordContent::Text("hi".to_string()), "user");
    assert_eq!(t, "hi");
    assert!(tools.is_empty());
    let blocks = RecordContent::Blocks(vec![
        block("text", Some("a")),
        block("image", None),
        block("other", Some("b")),
    ]);
    let (t, _) = extract_message_content(&blocks, "user");
    assert_eq!(t, "a\nb");
    let blocks = RecordContent::Blocks(vec![block("text", Some("")), block("text", Some("b"))]);
    let (t, _) = extract_message_content(&blocks, "user");
    assert_eq!(t, "b");
}

#[test]
fn assistant_text_blocks_and_tool_calls() {
    let mut tool = block("tool_use", None);
    tool.name = Some("Read".to_string());
    tool.input = Some("{\"path\":\"a\"}".to_string());
    let unnamed = block("tool_use", None);
    let content = RecordContent::Blocks(vec![
        block("text", Some("one")),
        block("thinking", Some("hidden")),
        tool,
        block("text", Some("two")),
        unnamed,
    ]);
    let (t, tools) = extract_message_content(&content, "assistant");
    assert_eq!(t, "one\ntwo");
    assert_eq!(tools.len(), 2);
    assert_eq!(tools[0].name, "Read");
    assert_eq!(tools[0].input_preview, "{\"path\":\"a\"}");
    assert_eq!(tools[1].name, "unknown");
    assert_eq!(tools[1].input_preview, "");
    let (t, _) = extract_message_content(&RecordContent::Text("x".to_string()), "assistant");
    assert_eq!(t, "");
}

#[test]
fn long_inputs_are_cut_to_two_hundred_characters() {
    let long = "x".repeat(250);
    let p = input_preview(&long);
    assert_eq!(p, format!("{}...", "x".repeat(200)));
    assert_eq!(input_preview(&"y".repeat(200)), "y".repeat(200));
    // 100 characters of two bytes each: over 200 bytes, under 200 characters
    let wide = "é".repeat(101);
    assert_eq!(input_preview(&wide), format!("{}...", "é".repeat(101)));
}

#[test]
fn summary_counts_conversation_records() {
    let mut r1 = record("summary", RecordContent::Absent);
    r1.slug = Some("first-slug".to_string());
    let mut r2 = record("user", RecordContent::Text("q".to_string()));
    r2.timestamp = Some("2024-01-01T00:00:00Z".to_string());
    let mut r3 = record("assistant", RecordContent::Absent);
    r3.is_sidechain = true;
    let mut r4 = record("user", RecordContent::Absent);
    r4.is_compact_summary = true;
    let r5 = record("assistant", RecordContent::Other);
    let s = extract_session_summary("sid".to_string(), &vec![r1, r2, r3, r4, r5]);
    assert_eq!(s.session_id, "sid");
    assert_eq!(s.message_count, 2);
    assert_eq!(s.slug.as_deref(), Some("first-slug"));
    assert_eq!(s.timestamp.as_deref(), Some("2024-01-01T00:00:00Z"));
}

#[test]
fn detail_keeps_conversation_messages_only() {
    let mut r1 = record("summary", RecordContent::Absent);
    r1.slug = Some("ignored".to_string());
    let mut r2 = record("user", RecordContent::Text("q".to_string()));
    r2.uuid = Some("u2".to_string());
    r2.git_branch = Some("main".to_string());
    let mut r3 = record("assistant", RecordContent::Blocks(vec![block("text", Some("a"))]));
    r3.slug = Some("kept".to_string());
    let d = get_claude_session("sid".to_string(), &vec![r1, r2, r3]);
    assert_eq!(d.slug.as_deref(), Some("kept"));
    assert_eq!(d.git_branch.as_deref(), Some("main"));
    assert_eq!(d.messages.len(), 2);
    assert_eq!(d.messages[0].role, "user");
    assert_eq!(d.messages[0].text_content, "q");
    assert_eq!(d.messages[0].uuid.as_deref(), Some("u2"));
    assert_eq!(d.messages[1].text_content, "a");
}

#[test]
fn projects_sort_by_decoded_path() {
    let p = |d: &str, path: &str| ClaudeProject { dir_name: d.to_string(), decoded_path: path.to_string() };
    let sorted = sort_projects(vec![p("1", "/b"), p("2", "/a/z"), p("3", "/a"), p("4", "/b")]);
    let names: Vec<&str> = sorted.iter().map(|x| x.dir_name.as_str()).collect();
    assert_eq!(names, vec!["3", "2", "1", "4"]);
}

#[test]
fn sessions_sort_newest_first_untimed_last() {
    let s = |id: &str, t: Option<&str>| ClaudeSessionSummary {
        session_id: id.to_string(),
        slug: None,
        timestamp: t.map(String::from),
        message_count: 0,
    };
    let sorted = sort_claude_sessions(vec![
        s("a", Some("2024-01-01")),
        s("b", None),
        s("c", Some("2024-03-01")),
        s("d", Some("2024-01-01")),
    ]);
    let ids: Vec<&str> = sorted.iter().map(|x| x.session_id.as_str()).collect();
    assert_eq!(ids, vec!["c", "a", "d", "b"]);
}

#[test]
fn decoding_only_turns_dashes_into_slashes() {
    let name = "-srv-my-app-v2";
    for existing in [
        vec![],
        vec!["/srv"],
        vec!["/srv", "/srv/my-app"],
        vec!["/srv-my", "/srv-my/app-v2"],
        vec!["/srv-my-app-v2"],
    ] {
        let (path, _) = decode_with(name, &existing);
        assert!(path.starts_with('/'));
        assert_eq!(path[1..].replace('/', "-"), "srv-my-app-v2");
    }
    let (path, _) = decode_with(name, &["/srv", "/srv/my-app"]);
    assert_eq!(path, "/srv/my-app/v2");
}
