//! Reading the session history kept by a coding tool: its project
//! directories, the session files in them, and the records of a session.
use vstd::prelude::*;
use vstd::string::*;

use crate::ident::{parse_id, uuid_parse};
use crate::order::{is_stable_sort, stable_sort, Ranked};
use crate::paths::{join_path, joined, path_has_prefix, path_starts_with};
use vstd::utf8::encode_utf8;

use crate::text::{
    concat2, same_text, contains_char, ends_with, ends_with_seq, has_char, is_split_of, join_with,
    lemma_lex_irreflexive, lemma_lex_split, lemma_lex_transitive, lex_lt, pieces, split_at_char,
    text_less,
};

verus! {

/// A project directory of the history, with the path it stands for.
#[derive(Debug)]
pub struct ClaudeProject {
    pub dir_name: String,
    pub decoded_path: String,
}

/// What a listing shows of a session file.
#[derive(Debug)]
pub struct ClaudeSessionSummary {
    pub session_id: String,
    pub slug: Option<String>,
    pub timestamp: Option<String>,
    pub message_count: usize,
}

/// A tool call made by the assistant, with the start of its input.
#[derive(Debug)]
pub struct ClaudeToolUse {
    pub name: String,
    pub input_preview: String,
}

/// A message of a session as it is shown.
#[derive(Debug)]
pub struct ClaudeMessage {
    pub role: String,
    pub timestamp: Option<String>,
    pub text_content: String,
    pub tool_uses: Vec<ClaudeToolUse>,
    pub uuid: Option<String>,
}

/// A session with its messages.
#[derive(Debug)]
pub struct ClaudeSessionDetail {
    pub session_id: String,
    pub slug: Option<String>,
    pub git_branch: Option<String>,
    pub messages: Vec<ClaudeMessage>,
}

/// An element of a message's `content` array: its `type`, `text` and `name`
/// where they are strings (`type` is empty where it is not), and its `input`
/// written as JSON where it is present.
#[derive(Debug)]
pub struct ContentBlock {
    pub block_type: String,
    pub text: Option<String>,
    pub name: Option<String>,
    pub input: Option<String>,
}

/// The `message.content` of a record.
#[derive(Debug)]
pub enum RecordContent {
    /// The record has no `message`, or the message no `content`.
    Absent,
    /// The content is a string.
    Text(String),
    /// The content is an array.
    Blocks(Vec<ContentBlock>),
    /// The content is some other JSON value.
    Other,
}

/// One line of a session file, read as JSON: the fields that are read of it.
/// `msg_type` is the `type` field where it is a string, and empty otherwise;
/// the flags are false where they are absent or not booleans; the optional
/// texts are `None` where the field is absent or not a string.
#[derive(Debug)]
pub struct ClaudeRecord {
    pub msg_type: String,
    pub is_compact_summary: bool,
    pub is_sidechain: bool,
    pub slug: Option<String>,
    pub timestamp: Option<String>,
    pub git_branch: Option<String>,
    pub uuid: Option<String>,
    pub content: RecordContent,
}

/// Two dots stand at positions `i` and `i + 1` of `s`.
pub open spec fn dots_at(s: Seq<char>, i: int) -> bool {
    s[i] == '.' && s[i + 1] == '.'
}

/// Whether `s` holds two dots in a row.
pub open spec fn has_double_dot_seq(s: Seq<char>) -> bool {
    exists|i: int| 0 <= i < s.len() - 1 && #[trigger] dots_at(s, i)
}

/// Whether `s` may name one directory entry: not empty, no separator, no `..`,
/// and not hidden.
pub open spec fn is_plain_component(s: Seq<char>) -> bool {
    &&& s.len() > 0
    &&& !has_char(s, '/')
    &&& !has_char(s, '\\')
    &&& !has_double_dot_seq(s)
    &&& s[0] != '.'
}

/// Whether `s` holds two dots in a row.
fn has_double_dot(s: &str) -> (b: bool)
    ensures
        b == has_double_dot_seq(s@),
{
    let n = s.unicode_len();
    if n < 2 {
        return false;
    }
    let mut i: usize = 0;
    while i + 1 < n
        invariant
            n == s@.len(),
            n >= 2,
            i + 1 <= n,
            forall|k: int| 0 <= k < i ==> !#[trigger] dots_at(s@, k),
        decreases n - i,
    {
        if s.get_char(i) == '.' && s.get_char(i + 1) == '.' {
            assert(dots_at(s@, i as int));
            return true;
        }
        i = i + 1;
    }
    false
}

/// Accepts `s` only where it names a single plain directory entry.
pub fn validate_path_component(s: &str) -> (r: Result<(), String>)
    ensures
        r is Ok <==> is_plain_component(s@),
        r matches Err(m) ==> m@ == "invalid path component"@,
{
    if s.unicode_len() == 0 || contains_char(s, '/') || contains_char(s, '\\') || has_double_dot(s)
        || s.get_char(0) == '.' {
        return Err("invalid path component".to_owned());
    }
    Ok(())
}

/// Accepts a path only where, both resolved, it lies under the base directory.
/// `path` and `base` are the outcomes of resolving them: the resolved path, or
/// the text of the error met.
pub fn validate_under_base(path: Result<String, String>, base: Result<String, String>) -> (r:
    Result<(), String>)
    ensures
        match (path, base) {
            (Err(e), _) => r matches Err(m) && m@ == "cannot resolve path: "@ + e@,
            (Ok(_), Err(e)) => r matches Err(m) && m@ == "cannot resolve base: "@ + e@,
            (Ok(p), Ok(b)) => if path_has_prefix(p@, b@) {
                r is Ok
            } else {
                r matches Err(m) && m@ == "path escapes base directory"@
            },
        },
{
    let canonical = match path {
        Ok(p) => p,
        Err(e) => {
            return Err(concat2("cannot resolve path: ", e.as_str()));
        },
    };
    let canonical_base = match base {
        Ok(b) => b,
        Err(e) => {
            return Err(concat2("cannot resolve base: ", e.as_str()));
        },
    };
    if !path_starts_with(canonical.as_str(), canonical_base.as_str()) {
        return Err("path escapes base directory".to_owned());
    }
    Ok(())
}

/// Whether a directory entry of the history is a project: its name begins with `-`.
pub fn is_project_dir_name(name: &str) -> (b: bool)
    ensures
        b == (name@.len() > 0 && name@[0] == '-'),
{
    name.unicode_len() > 0 && name.get_char(0) == '-'
}

/// `dir_name` without one leading `-`.
pub open spec fn without_leading_dash(dir_name: Seq<char>) -> Seq<char> {
    if dir_name.len() > 0 && dir_name[0] == '-' {
        dir_name.drop_first()
    } else {
        dir_name
    }
}

/// The path that decoding arrives at from the state (`parts`, `next`, `end`,
/// `resolved`) where `exists_path` tells which paths exist: while parts are
/// left, the run `parts[next..end]` joined by `-` is appended if that path
/// exists and decoding goes on after the run; otherwise a shorter run is
/// tried, and a run of one part is appended as it is.
pub open spec fn greedy_decode(
    parts: Seq<Seq<char>>,
    next: int,
    end: int,
    resolved: Seq<char>,
    exists_path: spec_fn(Seq<char>) -> bool,
) -> Seq<char>
    decreases parts.len() - next, end - next,
{
    if next < 0 || next >= parts.len() || end <= next || end > parts.len() {
        resolved
    } else {
        let c = joined(resolved, join_with(parts.subrange(next, end), '-'));
        if exists_path(c) {
            greedy_decode(parts, end, parts.len() as int, c, exists_path)
        } else if end > next + 1 {
            greedy_decode(parts, next, end - 1, resolved, exists_path)
        } else {
            greedy_decode(parts, next + 1, parts.len() as int, joined(resolved, parts[next]), exists_path)
        }
    }
}

/// The path a project directory named `dir_name` stands for, where
/// `exists_path` tells which paths exist: the name less one leading `-` is cut
/// at every `-`, and the parts are placed from the root, greedily.
pub open spec fn decoded_path(dir_name: Seq<char>, exists_path: spec_fn(Seq<char>) -> bool) -> Seq<
    char,
> {
    let parts = pieces(without_leading_dash(dir_name), '-');
    greedy_decode(parts, 0, parts.len() as int, "/"@, exists_path)
}

/// Turns the name of a project directory back into the path it stands for. The
/// name is the path with every `/` written as `-`, but a `-` of the name may
/// also stand for a `-` of the path; the decoder settles this by asking which
/// paths exist. It cuts the name (less one leading `-`) into parts at every `-`
/// and, from the root, takes each time the longest run of parts, joined by `-`,
/// that names an existing entry, or else the next part alone.
///
/// It is driven as a machine: while `next_probe` gives a path, the caller finds
/// out whether that path exists and tells `observe`; then `result` is the path.
#[derive(Debug)]
pub struct ProjectPathDecoder {
    parts: Vec<String>,
    next: usize,
    end: usize,
    resolved: String,
}

impl ProjectPathDecoder {
    #[verifier::type_invariant]
    spec fn decoder_inv(self) -> bool {
        &&& self.parts@.len() > 0
        &&& self.next <= self.parts@.len()
        &&& self.next < self.parts@.len() ==> self.next < self.end <= self.parts@.len()
    }

    /// The parts of the name.
    pub closed spec fn parts(&self) -> Seq<Seq<char>> {
        self.parts.deep_view()
    }

    /// The index of the first part not yet placed.
    pub closed spec fn next_part(&self) -> int {
        self.next as int
    }

    /// One past the last part of the run now tried.
    pub closed spec fn run_end(&self) -> int {
        self.end as int
    }

    /// The path made of the parts placed so far.
    pub closed spec fn resolved(&self) -> Seq<char> {
        self.resolved@
    }

    /// The path tried now: the run of parts from the next one to the end of the
    /// run, joined by `-`, appended to the path made so far.
    pub open spec fn candidate(&self) -> Seq<char> {
        joined(
            self.resolved(),
            join_with(self.parts().subrange(self.next_part(), self.run_end()), '-'),
        )
    }

    /// Whether every part has been placed.
    pub open spec fn finished(&self) -> bool {
        self.next_part() >= self.parts().len()
    }

    /// The path decoding arrives at from this state where `exists_path` tells
    /// which paths exist.
    pub open spec fn outcome(&self, exists_path: spec_fn(Seq<char>) -> bool) -> Seq<char> {
        greedy_decode(self.parts(), self.next_part(), self.run_end(), self.resolved(), exists_path)
    }

    /// A decoder for the directory name `dir_name`, at the root with no part placed.
    pub fn start(dir_name: &str) -> (d: Self)
        ensures
            d.parts() == pieces(without_leading_dash(dir_name@), '-'),
            is_split_of(d.parts(), without_leading_dash(dir_name@), '-'),
            forall|exists_path: spec_fn(Seq<char>) -> bool|
                d.outcome(exists_path) == decoded_path(dir_name@, exists_path),
            d.next_part() == 0,
            d.run_end() == d.parts().len(),
            d.resolved() == "/"@,
    {
        let parts = if is_project_dir_name(dir_name) {
            let n = dir_name.unicode_len();
            let raw = dir_name.substring_char(1, n);
            assert(raw@ =~= without_leading_dash(dir_name@));
            split_at_char(raw, '-')
        } else {
            split_at_char(dir_name, '-')
        };
        let end = parts.len();
        ProjectPathDecoder { parts, next: 0, end, resolved: "/".to_owned() }
    }

    /// The path whose existence decides the next step, or `None` when every
    /// part has been placed.
    pub fn next_probe(&self) -> (p: Option<String>)
        ensures
            self.finished() <==> p is None,
            p matches Some(c) ==> c@ == self.candidate(),
    {
        proof {
            use_type_invariant(self);
        }
        if self.next >= self.parts.len() {
            return None;
        }
        Some(self.candidate_text())
    }

    /// The path tried now, as text.
    fn candidate_text(&self) -> (c: String)
        requires
            !self.finished(),
        ensures
            c@ == self.candidate(),
    {
        proof {
            use_type_invariant(self);
        }
        let run = join_parts(&self.parts, self.next, self.end);
        join_path(self.resolved.as_str(), run.as_str())
    }

    /// Takes whether the path of `next_probe` was found to exist. If it does, its run of
    /// parts is placed; if not, a shorter run is tried, and where the run is a
    /// single part already, that part is placed as it is.
    pub fn observe(&mut self, found: bool)
        requires
            !old(self).finished(),
        ensures
            final(self).parts() == old(self).parts(),
            forall|exists_path: spec_fn(Seq<char>) -> bool|
                exists_path(old(self).candidate()) == found ==> final(self).outcome(exists_path)
                    == old(self).outcome(exists_path),
            (if found {
                &&& final(self).resolved() == old(self).candidate()
                &&& final(self).next_part() == old(self).run_end()
                &&& final(self).run_end() == old(self).parts().len()
            } else if old(self).run_end() > old(self).next_part() + 1 {
                &&& final(self).resolved() == old(self).resolved()
                &&& final(self).next_part() == old(self).next_part()
                &&& final(self).run_end() == old(self).run_end() - 1
            } else {
                &&& final(self).resolved() == joined(
                    old(self).resolved(),
                    old(self).parts()[old(self).next_part()],
                )
                &&& final(self).next_part() == old(self).next_part() + 1
                &&& final(self).run_end() == old(self).parts().len()
            }),
    {
        proof {
            use_type_invariant(&*self);
        }
        if found {
            let c = self.candidate_text();
            self.resolved = c;
            let placed_to = self.end;
            self.end = self.parts.len();
            self.next = placed_to;
        } else if self.end > self.next + 1 {
            self.end = self.end - 1;
        } else {
            let r = join_path(self.resolved.as_str(), self.parts[self.next].as_str());
            self.resolved = r;
            self.end = self.parts.len();
            self.next = self.next + 1;
        }
    }

    /// The path made of the parts placed so far: the decoded path once
    /// `next_probe` gives none.
    pub fn result(&self) -> (r: String)
        ensures
            r@ == self.resolved(),
            self.finished() ==> forall|exists_path: spec_fn(Seq<char>) -> bool|
                r@ == self.outcome(exists_path),
    {
        self.resolved.clone()
    }
}

/// The parts `parts[from..to]` joined by `-`.
fn join_parts(parts: &Vec<String>, from: usize, to: usize) -> (r: String)
    requires
        from < to <= parts@.len(),
    ensures
        r@ == join_with(parts.deep_view().subrange(from as int, to as int), '-'),
{
    let mut r = parts[from].clone();
    proof {
        assert(parts.deep_view().subrange(from as int, from + 1) =~= seq![parts.deep_view()[from as int]]);
    }
    let mut k: usize = from + 1;
    while k < to
        invariant
            from < k <= to,
            to <= parts@.len(),
            r@ == join_with(parts.deep_view().subrange(from as int, k as int), '-'),
        decreases to - k,
    {
        proof {
            let s = parts.deep_view().subrange(from as int, k + 1);
            assert(s.drop_last() =~= parts.deep_view().subrange(from as int, k as int));
        }
        crate::text::push_char(&mut r, '-');
        r.append(parts[k].as_str());
        k = k + 1;
    }
    r
}

/// `t` added to `acc` on a line of its own (no line break before the first text).
pub open spec fn append_line(acc: Seq<char>, t: Seq<char>) -> Seq<char> {
    if acc.len() == 0 {
        t
    } else {
        acc.push('\n') + t
    }
}

/// Whether block `b` contributes its text: it has one and, where only blocks
/// of type `text` count, it is of that type.
pub open spec fn contributes_text(b: ContentBlock, only_text_blocks: bool) -> bool {
    b.text is Some && (!only_text_blocks || b.block_type@ == "text"@)
}

/// The texts of the blocks that contribute one, each on a line of its own.
pub open spec fn block_texts(blocks: Seq<ContentBlock>, only_text_blocks: bool) -> Seq<char>
    decreases blocks.len(),
{
    if blocks.len() == 0 {
        Seq::empty()
    } else {
        let acc = block_texts(blocks.drop_last(), only_text_blocks);
        let b = blocks.last();
        if contributes_text(b, only_text_blocks) {
            append_line(acc, b.text->0@)
        } else {
            acc
        }
    }
}

/// The start of a tool input: where it is longer than 200 bytes in UTF-8, its
/// first 200 characters followed by `...`.
pub open spec fn preview(input: Seq<char>) -> Seq<char> {
    if encode_utf8(input).len() > 200 {
        input.take(if input.len() < 200 { input.len() as int } else { 200 }) + "..."@
    } else {
        input
    }
}

/// Whether block `b` is a tool call.
pub open spec fn is_tool_block(b: ContentBlock) -> bool {
    b.block_type@ == "tool_use"@
}

/// The tool-call blocks of `blocks`, in order.
pub open spec fn tool_blocks(blocks: Seq<ContentBlock>) -> Seq<ContentBlock>
    decreases blocks.len(),
{
    if blocks.len() == 0 {
        Seq::empty()
    } else if is_tool_block(blocks.last()) {
        tool_blocks(blocks.drop_last()).push(blocks.last())
    } else {
        tool_blocks(blocks.drop_last())
    }
}

/// `t` shows the tool call of block `b`: its name (`unknown` where it has
/// none) and the preview of its input (empty where it has none).
pub open spec fn shows_tool_use(t: ClaudeToolUse, b: ContentBlock) -> bool {
    &&& t.name@ == (match b.name {
        Some(n) => n@,
        None => "unknown"@,
    })
    &&& t.input_preview@ == (match b.input {
        Some(i) => preview(i@),
        None => Seq::empty(),
    })
}

/// The text shown for a message of type `msg_type`: a user's string content,
/// or the texts of a user's blocks; the texts of an assistant's `text` blocks.
pub open spec fn message_text(content: RecordContent, msg_type: Seq<char>) -> Seq<char> {
    if msg_type == "user"@ {
        match content {
            RecordContent::Text(s) => s@,
            RecordContent::Blocks(bs) => block_texts(bs@, false),
            _ => Seq::empty(),
        }
    } else if msg_type == "assistant"@ {
        match content {
            RecordContent::Blocks(bs) => block_texts(bs@, true),
            _ => Seq::empty(),
        }
    } else {
        Seq::empty()
    }
}

/// The blocks whose tool calls are shown for a message: an assistant's tool-call blocks.
pub open spec fn message_tool_blocks(content: RecordContent, msg_type: Seq<char>) -> Seq<ContentBlock> {
    if msg_type == "assistant"@ {
        match content {
            RecordContent::Blocks(bs) => tool_blocks(bs@),
            _ => Seq::empty(),
        }
    } else {
        Seq::empty()
    }
}

/// `tools` shows, in order, the tool calls of `blocks`.
pub open spec fn shows_tool_uses(tools: Seq<ClaudeToolUse>, blocks: Seq<ContentBlock>) -> bool {
    &&& tools.len() == blocks.len()
    &&& forall|k: int| 0 <= k < tools.len() ==> shows_tool_use(#[trigger] tools[k], blocks[k])
}

/// The start of a tool input, as it is shown.
pub fn input_preview(input: &str) -> (r: String)
    ensures
        r@ == preview(input@),
{
    let n = input.unicode_len();
    proof {
        crate::text::lemma_utf8_len_bounds(input@);
    }
    if n > 200 || input.len() > 200 {
        let k = if n < 200 { n } else { 200 };
        let head = input.substring_char(0, k);
        concat2(head, "...")
    } else {
        input.to_owned()
    }
}

/// The tool call shown for block `b`.
fn tool_use_of(b: &ContentBlock) -> (t: ClaudeToolUse)
    ensures
        shows_tool_use(t, *b),
{
    let name = match &b.name {
        Some(n) => n.clone(),
        None => "unknown".to_owned(),
    };
    let input_preview = match &b.input {
        Some(i) => input_preview(i.as_str()),
        None => String::new(),
    };
    ClaudeToolUse { name, input_preview }
}

/// The texts of `blocks` that contribute one, each on a line of its own.
fn join_block_texts(blocks: &Vec<ContentBlock>, only_text_blocks: bool) -> (r: String)
    ensures
        r@ == block_texts(blocks@, only_text_blocks),
{
    let mut acc = String::new();
    let n = blocks.len();
    let mut i: usize = 0;
    while i < n
        invariant
            n == blocks@.len(),
            i <= n,
            acc@ == block_texts(blocks@.take(i as int), only_text_blocks),
        decreases n - i,
    {
        assert(blocks@.take(i + 1).drop_last() =~= blocks@.take(i as int));
        let b = &blocks[i];
        let counts = match &b.text {
            Some(_) => !only_text_blocks || same_text(b.block_type.as_str(), "text"),
            None => false,
        };
        if counts {
            match &b.text {
                Some(t) => {
                    if acc.unicode_len() > 0 {
                        crate::text::push_char(&mut acc, '\n');
                    }
                    acc.append(t.as_str());
                },
                None => {},
            }
        }
        i = i + 1;
    }
    assert(blocks@.take(n as int) =~= blocks@);
    acc
}

/// The tool calls of `blocks`, as they are shown.
fn collect_tool_uses(blocks: &Vec<ContentBlock>) -> (r: Vec<ClaudeToolUse>)
    ensures
        shows_tool_uses(r@, tool_blocks(blocks@)),
{
    let mut r: Vec<ClaudeToolUse> = Vec::new();
    let n = blocks.len();
    let mut i: usize = 0;
    while i < n
        invariant
            n == blocks@.len(),
            i <= n,
            shows_tool_uses(r@, tool_blocks(blocks@.take(i as int))),
        decreases n - i,
    {
        assert(blocks@.take(i + 1).drop_last() =~= blocks@.take(i as int));
        assert(blocks@.take(i + 1).last() == blocks@[i as int]);
        if same_text(blocks[i].block_type.as_str(), "tool_use") {
            let t = tool_use_of(&blocks[i]);
            r.push(t);
        }
        i = i + 1;
    }
    assert(blocks@.take(n as int) =~= blocks@);
    r
}

/// The text and the tool calls shown for a message of type `msg_type` with
/// the content `content`.
pub fn extract_message_content(content: &RecordContent, msg_type: &str) -> (r: (
    String,
    Vec<ClaudeToolUse>,
))
    ensures
        r.0@ == message_text(*content, msg_type@),
        shows_tool_uses(r.1@, message_tool_blocks(*content, msg_type@)),
{
    let mut tool_uses: Vec<ClaudeToolUse> = Vec::new();
    if same_text(msg_type, "user") {
        let text = match content {
            RecordContent::Text(s) => s.clone(),
            RecordContent::Blocks(bs) => join_block_texts(bs, false),
            _ => String::new(),
        };
        proof {
            reveal_strlit("user");
            reveal_strlit("assistant");
            assert("user"@.len() == 4);
            assert("assistant"@.len() == 9);
            assert(msg_type@ != "assistant"@);
            assert(message_tool_blocks(*content, msg_type@) =~= Seq::<ContentBlock>::empty());
        }
        (text, tool_uses)
    } else if same_text(msg_type, "assistant") {
        match content {
            RecordContent::Blocks(bs) => (join_block_texts(bs, true), collect_tool_uses(bs)),
            _ => (String::new(), tool_uses),
        }
    } else {
        (String::new(), tool_uses)
    }
}

/// Whether a record is a message of the conversation: of type `user` or
/// `assistant`, and neither a compaction summary nor on a side chain.
pub open spec fn is_conversation_record(r: ClaudeRecord) -> bool {
    (r.msg_type@ == "user"@ || r.msg_type@ == "assistant"@) && !r.is_compact_summary
        && !r.is_sidechain
}

/// How many records are messages of the conversation.
pub open spec fn conversation_count(rs: Seq<ClaudeRecord>) -> nat
    decreases rs.len(),
{
    if rs.len() == 0 {
        0
    } else if is_conversation_record(rs.last()) {
        conversation_count(rs.drop_last()) + 1
    } else {
        conversation_count(rs.drop_last())
    }
}

/// The records that are messages of the conversation, in order.
pub open spec fn conversation_records(rs: Seq<ClaudeRecord>) -> Seq<ClaudeRecord>
    decreases rs.len(),
{
    if rs.len() == 0 {
        Seq::empty()
    } else if is_conversation_record(rs.last()) {
        conversation_records(rs.drop_last()).push(rs.last())
    } else {
        conversation_records(rs.drop_last())
    }
}

/// The first value present in `vals`.
pub open spec fn first_present(vals: Seq<Option<Seq<char>>>) -> Option<Seq<char>>
    decreases vals.len(),
{
    if vals.len() == 0 {
        None
    } else if first_present(vals.drop_last()) is Some {
        first_present(vals.drop_last())
    } else {
        vals.last()
    }
}

/// The `slug` fields of the records.
pub open spec fn slugs(rs: Seq<ClaudeRecord>) -> Seq<Option<Seq<char>>> {
    rs.map_values(|r: ClaudeRecord| r.slug.deep_view())
}

/// The `timestamp` fields of the records.
pub open spec fn timestamps(rs: Seq<ClaudeRecord>) -> Seq<Option<Seq<char>>> {
    rs.map_values(|r: ClaudeRecord| r.timestamp.deep_view())
}

/// The `gitBranch` fields of the records.
pub open spec fn git_branches(rs: Seq<ClaudeRecord>) -> Seq<Option<Seq<char>>> {
    rs.map_values(|r: ClaudeRecord| r.git_branch.deep_view())
}

/// `m` shows the message of record `r`.
pub open spec fn shows_record(m: ClaudeMessage, r: ClaudeRecord) -> bool {
    &&& m.role@ == r.msg_type@
    &&& m.timestamp.deep_view() == r.timestamp.deep_view()
    &&& m.uuid.deep_view() == r.uuid.deep_view()
    &&& m.text_content@ == message_text(r.content, r.msg_type@)
    &&& shows_tool_uses(m.tool_uses@, message_tool_blocks(r.content, r.msg_type@))
}

/// Whether a record is a message of the conversation.
fn counts_as_message(r: &ClaudeRecord) -> (b: bool)
    ensures
        b == is_conversation_record(*r),
{
    (same_text(r.msg_type.as_str(), "user") || same_text(r.msg_type.as_str(), "assistant"))
        && !r.is_compact_summary && !r.is_sidechain
}

/// `cur` unless it is `None`, else a copy of `next`.
fn keep_first(cur: Option<String>, next: &Option<String>) -> (r: Option<String>)
    ensures
        r.deep_view() == (if cur is Some {
            cur.deep_view()
        } else {
            next.deep_view()
        }),
{
    match cur {
        Some(c) => Some(c),
        None => crate::session::copy_text(next),
    }
}

/// The summary of the session `session_id` whose file holds `records`: the
/// number of conversation messages, and the first slug and the first
/// timestamp of any record.
pub fn extract_session_summary(session_id: String, records: &Vec<ClaudeRecord>) -> (r:
    ClaudeSessionSummary)
    ensures
        r.session_id == session_id,
        r.slug.deep_view() == first_present(slugs(records@)),
        r.timestamp.deep_view() == first_present(timestamps(records@)),
        r.message_count == conversation_count(records@),
{
    let mut slug: Option<String> = None;
    let mut timestamp: Option<String> = None;
    let mut message_count: usize = 0;
    let n = records.len();
    let mut i: usize = 0;
    while i < n
        invariant
            n == records@.len(),
            i <= n,
            slug.deep_view() == first_present(slugs(records@.take(i as int))),
            timestamp.deep_view() == first_present(timestamps(records@.take(i as int))),
            message_count == conversation_count(records@.take(i as int)),
            message_count <= i,
        decreases n - i,
    {
        let ghost pre = records@.take(i as int);
        let ghost cur = records@.take(i + 1);
        assert(cur.drop_last() =~= pre);
        assert(slugs(cur).drop_last() =~= slugs(pre));
        assert(timestamps(cur).drop_last() =~= timestamps(pre));
        let r = &records[i];
        if counts_as_message(r) {
            message_count = message_count + 1;
        }
        slug = keep_first(slug, &r.slug);
        timestamp = keep_first(timestamp, &r.timestamp);
        i = i + 1;
    }
    assert(records@.take(n as int) =~= records@);
    ClaudeSessionSummary { session_id, slug, timestamp, message_count }
}

/// The message shown for record `r`.
fn message_of_record(r: &ClaudeRecord) -> (m: ClaudeMessage)
    ensures
        shows_record(m, *r),
{
    let (text_content, tool_uses) = extract_message_content(&r.content, r.msg_type.as_str());
    ClaudeMessage {
        role: r.msg_type.clone(),
        timestamp: crate::session::copy_text(&r.timestamp),
        text_content,
        tool_uses,
        uuid: crate::session::copy_text(&r.uuid),
    }
}

/// The session `session_id` whose file holds `records`: its conversation
/// messages in order, and the first slug and git branch among them.
pub fn get_claude_session(session_id: String, records: &Vec<ClaudeRecord>) -> (d:
    ClaudeSessionDetail)
    ensures
        d.session_id == session_id,
        d.slug.deep_view() == first_present(slugs(conversation_records(records@))),
        d.git_branch.deep_view() == first_present(git_branches(conversation_records(records@))),
        d.messages@.len() == conversation_records(records@).len(),
        forall|k: int|
            0 <= k < d.messages@.len() ==> shows_record(
                #[trigger] d.messages@[k],
                conversation_records(records@)[k],
            ),
{
    let mut slug: Option<String> = None;
    let mut git_branch: Option<String> = None;
    let mut messages: Vec<ClaudeMessage> = Vec::new();
    let n = records.len();
    let mut i: usize = 0;
    while i < n
        invariant
            n == records@.len(),
            i <= n,
            slug.deep_view() == first_present(slugs(conversation_records(records@.take(i as int)))),
            git_branch.deep_view() == first_present(
                git_branches(conversation_records(records@.take(i as int))),
            ),
            messages@.len() == conversation_records(records@.take(i as int)).len(),
            forall|k: int|
                0 <= k < messages@.len() ==> shows_record(
                    #[trigger] messages@[k],
                    conversation_records(records@.take(i as int))[k],
                ),
        decreases n - i,
    {
        let ghost pre = records@.take(i as int);
        let ghost cur = records@.take(i + 1);
        assert(cur.drop_last() =~= pre);
        let r = &records[i];
        if counts_as_message(r) {
            proof {
                let cp = conversation_records(pre);
                let cc = conversation_records(cur);
                assert(cc == cp.push(*r));
                assert(slugs(cc).drop_last() =~= slugs(cp));
                assert(git_branches(cc).drop_last() =~= git_branches(cp));
            }
            slug = keep_first(slug, &r.slug);
            git_branch = keep_first(git_branch, &r.git_branch);
            let m = message_of_record(r);
            messages.push(m);
        }
        i = i + 1;
    }
    assert(records@.take(n as int) =~= records@);
    ClaudeSessionDetail { session_id, slug, git_branch, messages }
}

/// Projects are listed in lexicographic order of the paths they stand for.
impl Ranked for ClaudeProject {
    open spec fn precedes(&self, other: &Self) -> bool {
        lex_lt(self.decoded_path@, other.decoded_path@)
    }

    fn comes_before(&self, other: &Self) -> (b: bool) {
        text_less(self.decoded_path.as_str(), other.decoded_path.as_str())
    }

    proof fn lemma_irreflexive(a: &Self) {
        lemma_lex_irreflexive(a.decoded_path@);
    }

    proof fn lemma_transitive(a: &Self, b: &Self, c: &Self) {
        lemma_lex_transitive(a.decoded_path@, b.decoded_path@, c.decoded_path@);
    }

    proof fn lemma_split(a: &Self, b: &Self, c: &Self) {
        lemma_lex_split(a.decoded_path@, b.decoded_path@, c.decoded_path@);
    }
}

/// Sorts projects by the paths they stand for; equal paths keep their order.
pub fn sort_projects(projects: Vec<ClaudeProject>) -> (r: Vec<ClaudeProject>)
    ensures
        is_stable_sort(r@, projects@),
{
    stable_sort(projects)
}

/// An optional text comes before another: no text comes before any text, and
/// texts compare lexicographically.
pub open spec fn opt_lex_lt(a: Option<Seq<char>>, b: Option<Seq<char>>) -> bool {
    match (a, b) {
        (None, Some(_)) => true,
        (Some(x), Some(y)) => lex_lt(x, y),
        _ => false,
    }
}

/// Session summaries are listed newest first: by their timestamps, latest
/// first, those without a timestamp last.
impl Ranked for ClaudeSessionSummary {
    open spec fn precedes(&self, other: &Self) -> bool {
        opt_lex_lt(other.timestamp.deep_view(), self.timestamp.deep_view())
    }

    fn comes_before(&self, other: &Self) -> (b: bool) {
        match (&other.timestamp, &self.timestamp) {
            (None, Some(_)) => true,
            (Some(x), Some(y)) => text_less(x.as_str(), y.as_str()),
            _ => false,
        }
    }

    proof fn lemma_irreflexive(a: &Self) {
        if let Some(t) = a.timestamp {
            lemma_lex_irreflexive(t@);
        }
    }

    proof fn lemma_transitive(a: &Self, b: &Self, c: &Self) {
        if let (Some(x), Some(y), Some(z)) = (a.timestamp, b.timestamp, c.timestamp) {
            lemma_lex_transitive(z@, y@, x@);
        }
    }

    proof fn lemma_split(a: &Self, b: &Self, c: &Self) {
        if let (Some(x), Some(y), Some(z)) = (a.timestamp, b.timestamp, c.timestamp) {
            lemma_lex_split(y@, x@, z@);
        }
    }
}

/// Sorts session summaries newest first; equal timestamps keep their order.
pub fn sort_claude_sessions(sessions: Vec<ClaudeSessionSummary>) -> (r: Vec<ClaudeSessionSummary>)
    ensures
        is_stable_sort(r@, sessions@),
{
    stable_sort(sessions)
}

/// The identifier of the session kept in a file named `name`: the name less
/// `.jsonl`, where it ends so and the rest reads as a UUID.
pub open spec fn session_id_of_file(name: Seq<char>) -> Option<Seq<char>> {
    if ends_with_seq(name, ".jsonl"@) && uuid_parse(name.take(name.len() - 6)) is Some {
        Some(name.take(name.len() - 6))
    } else {
        None
    }
}

/// The identifier of the session kept in the file named `name`, if it is a session file.
pub fn session_id_from_file_name(name: &str) -> (r: Option<String>)
    ensures
        r.deep_view() == session_id_of_file(name@),
{
    proof {
        reveal_strlit(".jsonl");
    }
    if !ends_with(name, ".jsonl") {
        return None;
    }
    let n = name.unicode_len();
    let stem = name.substring_char(0, n - 6);
    match parse_id(stem) {
        Some(_) => Some(stem.to_owned()),
        None => None,
    }
}

/// Accepts `id` only where it reads as a UUID.
pub fn check_session_id(id: &str) -> (r: Result<(), String>)
    ensures
        r is Ok <==> uuid_parse(id@) is Some,
        r matches Err(m) ==> m@ == "invalid session id"@,
{
    match parse_id(id) {
        Some(_) => Ok(()),
        None => Err("invalid session id".to_owned()),
    }
}

/// The path of the file of session `session_id` in project `project_dir` of
/// the history kept in `base`.
pub fn session_file_path(base: &str, project_dir: &str, session_id: &str) -> (p: String)
    ensures
        p@ == joined(joined(base@, project_dir@), session_id@ + ".jsonl"@),
{
    let dir = join_path(base, project_dir);
    let file = concat2(session_id, ".jsonl");
    join_path(dir.as_str(), file.as_str())
}

} // verus!
