//! Properties that hold across the operations on sessions and the store.
use vstd::prelude::*;

use crate::order::{is_stable_sort, sorted_by_rank, stable_arrangement, Ranked};
use crate::session::{elapsed_secs, expired_at};
use crate::history::{decoded_path, greedy_decode, session_id_of_file, without_leading_dash};
use crate::paths::joined;
use crate::ident::{lemma_text_form_injective, lemma_text_form_reads_back, uuid_hyphenated, uuid_parse};
use crate::store::{
    expired_ids, has_json_extension, ids_matching, session_file_name, summaries_of, summary_of,
    SessionSummary,
};
use crate::history::ClaudeSessionSummary;
use crate::prompt::{file_prefix, is_chat_of, ChatMessage};
use crate::types::{GenerateRequest, Role};
use crate::text::{
    has_char, join_with, lex_lt, lemma_join_concat, lemma_join_holds_parts, lemma_join_lacks,
    lemma_pieces_join, pieces, starts_with_seq,
};
use crate::session::Session;

verus! {

/// A session without a lifetime never expires.
pub proof fn law_no_lifetime_never_expires(last_active: i128, now: i128)
    ensures
        !expired_at(None, last_active, now),
{
}

/// A session is never expired at the moment of its last activity.
pub proof fn law_not_expired_when_active(ttl_secs: Option<u64>, t: i128)
    ensures
        !expired_at(ttl_secs, t, t),
{
}

/// Once expired, a session stays expired as time goes on.
pub proof fn law_expiry_persists(ttl_secs: Option<u64>, last_active: i128, t1: i128, t2: i128)
    requires
        t1 <= t2,
        expired_at(ttl_secs, last_active, t1),
    ensures
        expired_at(ttl_secs, last_active, t2),
{
    let d1 = t1 - last_active;
    let d2 = t2 - last_active;
    assert(d1 >= 1_000_000_000);
    assert(d1 / 1_000_000_000 <= d2 / 1_000_000_000) by (nonlinear_arith)
        requires
            0 <= d1 <= d2,
    ;
    assert(elapsed_secs(t2, last_active) >= elapsed_secs(t1, last_active));
}

/// A listing shows the most recently active sessions first.
pub proof fn law_listing_newest_first(sessions: Seq<Session>, now: i128, listed: Seq<SessionSummary>)
    requires
        is_stable_sort(listed, summaries_of(sessions, now)),
    ensures
        listed.len() == sessions.len(),
        forall|i: int, j: int|
            0 <= i < j < listed.len() ==> (#[trigger] listed[i]).last_active >= (
            #[trigger] listed[j]).last_active,
{
    let p = choose|p: Seq<int>| stable_arrangement(listed, summaries_of(sessions, now), p);
    assert(sorted_by_rank(listed));
    assert forall|i: int, j: int| 0 <= i < j < listed.len() implies (
    #[trigger] listed[i]).last_active >= (#[trigger] listed[j]).last_active by {
        assert(!listed[j].precedes(&listed[i]));
    }
}

/// Each entry of a listing is the summary of one of the listed sessions, and
/// no session is shown twice; sessions active at the same time are shown in
/// the order they were given.
pub proof fn law_listing_shows_each_session_once(
    sessions: Seq<Session>,
    now: i128,
    listed: Seq<SessionSummary>,
)
    requires
        is_stable_sort(listed, summaries_of(sessions, now)),
    ensures
        exists|p: Seq<int>|
            {
                &&& p.len() == sessions.len()
                &&& forall|k: int|
                    0 <= k < p.len() ==> 0 <= #[trigger] p[k] < sessions.len() && listed[k]
                        == summary_of(sessions[p[k]], now)
                &&& forall|k: int, l: int| 0 <= k < l < p.len() ==> #[trigger] p[k] != #[trigger] p[l]
                &&& forall|k: int, l: int|
                    0 <= k < l < p.len() && listed[k].last_active == listed[l].last_active ==> p[k]
                        < p[l]
            },
{
    let p = choose|p: Seq<int>| stable_arrangement(listed, summaries_of(sessions, now), p);
    assert forall|k: int| 0 <= k < p.len() implies 0 <= #[trigger] p[k] < sessions.len() && listed[k]
        == summary_of(sessions[p[k]], now) by {
        assert(summaries_of(sessions, now)[p[k]] == summary_of(sessions[p[k]], now));
    }
    assert forall|k: int, l: int|
        0 <= k < l < p.len() && listed[k].last_active == listed[l].last_active implies p[k] < p[l] by {
        assert(crate::order::tied(listed[k], listed[l]));
    }
}

/// Cleanup removes exactly the expired sessions: an identifier is removed if
/// and only if a listed session with that identifier is expired, and as many
/// removals are made as there are expired sessions.
pub proof fn law_cleanup_removes_exactly_expired(summaries: Seq<SessionSummary>)
    ensures
        forall|id: u128|
            expired_ids(summaries).contains(id) <==> exists|k: int|
                0 <= k < summaries.len() && (#[trigger] summaries[k]).expired && summaries[k].id
                    == id,
        expired_ids(summaries).len() == summaries.filter(|s: SessionSummary| s.expired).len(),
    decreases summaries.len(),
{
    reveal(Seq::filter);
    if summaries.len() > 0 {
        let rest = summaries.drop_last();
        law_cleanup_removes_exactly_expired(rest);
        assert forall|id: u128|
            expired_ids(summaries).contains(id) <==> exists|k: int|
                0 <= k < summaries.len() && (#[trigger] summaries[k]).expired && summaries[k].id
                    == id by {
            if expired_ids(summaries).contains(id) {
                if summaries.last().expired && id == summaries.last().id {
                    assert(summaries[summaries.len() - 1].expired);
                } else {
                    assert(expired_ids(rest).contains(id));
                    let k = choose|k: int|
                        0 <= k < rest.len() && (#[trigger] rest[k]).expired && rest[k].id == id;
                    assert(summaries[k] == rest[k]);
                }
            }
            if exists|k: int|
                0 <= k < summaries.len() && (#[trigger] summaries[k]).expired && summaries[k].id
                    == id {
                let k = choose|k: int|
                    0 <= k < summaries.len() && (#[trigger] summaries[k]).expired && summaries[k].id
                        == id;
                if k == summaries.len() - 1 {
                    assert(expired_ids(summaries).last() == id);
                } else {
                    assert(rest[k] == summaries[k]);
                    assert(expired_ids(rest).contains(id));
                    let j = choose|j: int| 0 <= j < expired_ids(rest).len() && expired_ids(rest)[j] == id;
                    assert(expired_ids(summaries)[j] == id);
                }
            }
        }
    }
}

/// An identifier's text form begins another's only where they are the same identifier.
proof fn lemma_text_form_prefix(x: u128, id: u128)
    ensures
        starts_with_seq(uuid_hyphenated(x), uuid_hyphenated(id)) <==> x == id,
{
    if starts_with_seq(uuid_hyphenated(x), uuid_hyphenated(id)) {
        assert(uuid_hyphenated(x).subrange(0, 36) =~= uuid_hyphenated(x));
        lemma_text_form_injective(x, id);
    }
    if x == id {
        assert(uuid_hyphenated(x).subrange(0, 36) =~= uuid_hyphenated(x));
    }
}

/// No listed identifier matches the text form of an identifier not listed.
proof fn lemma_unlisted_matches_nothing(summaries: Seq<SessionSummary>, id: u128)
    requires
        forall|j: int| 0 <= j < summaries.len() ==> (#[trigger] summaries[j]).id != id,
    ensures
        ids_matching(summaries, uuid_hyphenated(id)) == Seq::<u128>::empty(),
    decreases summaries.len(),
{
    if summaries.len() > 0 {
        let rest = summaries.drop_last();
        assert forall|j: int| 0 <= j < rest.len() implies (#[trigger] rest[j]).id != id by {
            assert(rest[j] == summaries[j]);
        }
        lemma_unlisted_matches_nothing(rest, id);
        lemma_text_form_prefix(summaries.last().id, id);
    }
}

/// Where no two listed sessions share an identifier, the full text form of a
/// listed session's identifier matches that session alone, so resolving it
/// gives that identifier.
pub proof fn law_full_id_resolves_to_itself(summaries: Seq<SessionSummary>, k: int)
    requires
        0 <= k < summaries.len(),
        forall|i: int, j: int|
            0 <= i < j < summaries.len() ==> (#[trigger] summaries[i]).id != (#[trigger] summaries[j]).id,
    ensures
        ids_matching(summaries, uuid_hyphenated(summaries[k].id)) == seq![summaries[k].id],
    decreases summaries.len(),
{
    let id = summaries[k].id;
    let rest = summaries.drop_last();
    lemma_text_form_prefix(summaries.last().id, id);
    if k == summaries.len() - 1 {
        assert forall|j: int| 0 <= j < rest.len() implies (#[trigger] rest[j]).id != id by {
            assert(rest[j] == summaries[j]);
        }
        lemma_unlisted_matches_nothing(rest, id);
        assert(ids_matching(summaries, uuid_hyphenated(id)) =~= seq![id]);
    } else {
        assert(rest[k] == summaries[k]);
        assert forall|i: int, j: int|
            0 <= i < j < rest.len() implies (#[trigger] rest[i]).id != (#[trigger] rest[j]).id by {
            assert(rest[i] == summaries[i]);
            assert(rest[j] == summaries[j]);
        }
        law_full_id_resolves_to_itself(rest, k);
        assert(summaries.last().id != id);
    }
}

/// The file a session is saved in is one that listing reads: its name has
/// the extension `json`.
pub proof fn law_saved_file_is_listed(id: u128)
    ensures
        has_json_extension(session_file_name(id)),
{
    let name = session_file_name(id);
    reveal_strlit(".json");
    assert(name.subrange(name.len() - 5, name.len() as int) =~= ".json"@);
}

/// Reading back the text form of an identifier gives the identifier, and
/// different identifiers have different text forms.
pub proof fn law_text_form_round_trip(a: u128, b: u128)
    ensures
        uuid_parse(uuid_hyphenated(a)) == Some(a),
        uuid_hyphenated(a) == uuid_hyphenated(b) ==> a == b,
{
    lemma_text_form_reads_back(a);
    if uuid_hyphenated(a) == uuid_hyphenated(b) {
        lemma_text_form_injective(a, b);
    }
}

/// A history file named by a session identifier's text form and `.jsonl` is
/// read as that session's file.
pub proof fn law_history_file_names_its_session(id: u128)
    ensures
        session_id_of_file(uuid_hyphenated(id) + ".jsonl"@) == Some(uuid_hyphenated(id)),
{
    let name = uuid_hyphenated(id) + ".jsonl"@;
    reveal_strlit(".jsonl");
    assert(name.subrange(name.len() - 6, name.len() as int) =~= ".jsonl"@);
    assert(name.take(name.len() - 6) =~= uuid_hyphenated(id));
    lemma_text_form_reads_back(id);
}

/// The parts from `next` on placed one by one after `resolved`.
pub open spec fn placed_one_by_one(parts: Seq<Seq<char>>, next: int, resolved: Seq<char>) -> Seq<char>
    decreases parts.len() - next,
{
    if next < 0 || next >= parts.len() {
        resolved
    } else {
        placed_one_by_one(parts, next + 1, joined(resolved, parts[next]))
    }
}

/// Where no path exists, every run shrinks to a single part.
proof fn lemma_nothing_exists_run(parts: Seq<Seq<char>>, next: int, end: int, resolved: Seq<char>)
    requires
        0 <= next < end <= parts.len(),
    ensures
        greedy_decode(parts, next, end, resolved, |p: Seq<char>| false) == greedy_decode(
            parts,
            next + 1,
            parts.len() as int,
            joined(resolved, parts[next]),
            |p: Seq<char>| false,
        ),
    decreases end - next,
{
    if end > next + 1 {
        lemma_nothing_exists_run(parts, next, end - 1, resolved);
    }
}

/// Where no path exists, the parts are placed one by one.
proof fn lemma_nothing_exists(parts: Seq<Seq<char>>, next: int, resolved: Seq<char>)
    requires
        0 <= next <= parts.len(),
    ensures
        greedy_decode(parts, next, parts.len() as int, resolved, |p: Seq<char>| false)
            == placed_one_by_one(parts, next, resolved),
    decreases parts.len() - next,
{
    if next < parts.len() {
        lemma_nothing_exists_run(parts, next, parts.len() as int, resolved);
        lemma_nothing_exists(parts, next + 1, joined(resolved, parts[next]));
    }
}

/// Placing plain parts one by one after the root writes them separated by `/`.
proof fn lemma_placed_with_slashes(parts: Seq<Seq<char>>, m: int)
    requires
        1 <= m <= parts.len(),
        forall|k: int| 0 <= k < parts.len() ==> (#[trigger] parts[k]).len() > 0 && !has_char(parts[k], '/'),
    ensures
        placed_one_by_one(parts, 0, "/"@) == placed_one_by_one(
            parts,
            m,
            "/"@ + join_with(parts.take(m), '/'),
        ),
    decreases m,
{
    reveal_strlit("/");
    if m == 1 {
        assert(parts.take(1) =~= seq![parts[0]]);
        assert(parts[0][0] != '/');
        assert(joined("/"@, parts[0]) == "/"@ + parts[0]);
    } else {
        lemma_placed_with_slashes(parts, m - 1);
        let x = "/"@ + join_with(parts.take(m - 1), '/');
        assert(parts.take(m).drop_last() =~= parts.take(m - 1));
        assert(parts[m - 1][0] != '/');
        lemma_join_ends_with_last(parts.take(m - 1));
        assert(x.last() != '/');
        assert(joined(x, parts[m - 1]) =~= "/"@ + join_with(parts.take(m), '/'));
    }
}

/// A join of plain parts ends with the last character of its last part.
proof fn lemma_join_ends_with_last(parts: Seq<Seq<char>>)
    requires
        parts.len() > 0,
        forall|k: int| 0 <= k < parts.len() ==> (#[trigger] parts[k]).len() > 0 && !has_char(parts[k], '/'),
    ensures
        join_with(parts, '/').len() > 0,
        join_with(parts, '/').last() == parts.last().last(),
    decreases parts.len(),
{
    if parts.len() > 1 {
        let rest = parts.drop_last();
        assert(forall|k: int| 0 <= k < rest.len() ==> rest[k] == parts[k]);
        lemma_join_ends_with_last(rest);
    }
}

/// Where none of the paths tried exists, decoding writes every `-` of the name
/// (after a leading one) as `/`, provided the name has no empty part and no `/`.
pub proof fn law_nothing_exists_every_dash_is_a_separator(dir_name: Seq<char>)
    requires
        forall|k: int|
            0 <= k < pieces(without_leading_dash(dir_name), '-').len() ==> (#[trigger] pieces(
                without_leading_dash(dir_name),
                '-',
            )[k]).len() > 0 && !has_char(pieces(without_leading_dash(dir_name), '-')[k], '/'),
    ensures
        decoded_path(dir_name, |p: Seq<char>| false) == "/"@ + join_with(
            pieces(without_leading_dash(dir_name), '-'),
            '/',
        ),
{
    let parts = pieces(without_leading_dash(dir_name), '-');
    crate::text::lemma_pieces_nonempty(without_leading_dash(dir_name), '-');
    lemma_nothing_exists(parts, 0, "/"@);
    lemma_placed_with_slashes(parts, parts.len() as int);
    assert(parts.take(parts.len() as int) =~= parts);
}

/// `s` with every `/` written as `-`.
pub open spec fn slashes_as_dashes(s: Seq<char>) -> Seq<char> {
    s.map_values(|c: char| if c == '/' { '-' } else { c })
}

/// What holds of the path made once the parts before `next` are placed: it
/// is the root where none is, else it begins with `/`, does not end with `/`,
/// and with its slashes written as dashes it is those parts joined by `-`.
pub open spec fn placed_so_far(parts: Seq<Seq<char>>, next: int, resolved: Seq<char>) -> bool {
    ||| next == 0 && resolved == "/"@
    ||| {
        &&& 0 < next <= parts.len()
        &&& resolved.len() > 1
        &&& resolved[0] == '/'
        &&& resolved.last() != '/'
        &&& slashes_as_dashes(resolved.drop_first()) == join_with(parts.take(next), '-')
    }
}

/// Placing the run `parts[next..end]` after the path made so far keeps
/// `placed_so_far`.
proof fn lemma_place_run(parts: Seq<Seq<char>>, next: int, end: int, resolved: Seq<char>)
    requires
        0 <= next < end <= parts.len(),
        forall|k: int| 0 <= k < parts.len() ==> (#[trigger] parts[k]).len() > 0 && !has_char(parts[k], '/'),
        placed_so_far(parts, next, resolved),
    ensures
        placed_so_far(parts, end, joined(resolved, join_with(parts.subrange(next, end), '-'))),
{
    reveal_strlit("/");
    let run_parts = parts.subrange(next, end);
    assert(forall|k: int| 0 <= k < run_parts.len() ==> run_parts[k] == parts[next + k]);
    lemma_join_lacks(run_parts, '-', '/');
    let run = join_with(run_parts, '-');
    assert(run[0] != '/');
    assert(run[run.len() - 1] != '/');
    assert(slashes_as_dashes(run) =~= run);
    let c = joined(resolved, run);
    if next == 0 {
        assert(resolved == "/"@);
        assert(c == resolved + run);
        assert(c.drop_first() =~= run);
        assert(run_parts =~= parts.take(end));
    } else {
        assert(c == resolved.push('/') + run);
        assert(c.drop_first() =~= resolved.drop_first().push('/') + run);
        assert(slashes_as_dashes(c.drop_first()) =~= slashes_as_dashes(resolved.drop_first()).push(
            '-',
        ) + slashes_as_dashes(run));
        lemma_join_concat(parts.take(next), run_parts, '-');
        assert(parts.take(next) + run_parts =~= parts.take(end));
    }
}

/// Whatever paths exist, decoding from a state that satisfies
/// `placed_so_far` ends in one that does, with every part placed.
proof fn lemma_decode_places_all(
    parts: Seq<Seq<char>>,
    next: int,
    end: int,
    resolved: Seq<char>,
    exists_path: spec_fn(Seq<char>) -> bool,
)
    requires
        parts.len() > 0,
        forall|k: int| 0 <= k < parts.len() ==> (#[trigger] parts[k]).len() > 0 && !has_char(parts[k], '/'),
        0 <= next <= parts.len(),
        next < parts.len() ==> next < end <= parts.len(),
        placed_so_far(parts, next, resolved),
    ensures
        placed_so_far(parts, parts.len() as int, greedy_decode(parts, next, end, resolved, exists_path)),
    decreases parts.len() - next, end - next,
{
    if next < parts.len() {
        let c = joined(resolved, join_with(parts.subrange(next, end), '-'));
        if exists_path(c) {
            lemma_place_run(parts, next, end, resolved);
            lemma_decode_places_all(parts, end, parts.len() as int, c, exists_path);
        } else if end > next + 1 {
            lemma_decode_places_all(parts, next, end - 1, resolved, exists_path);
        } else {
            lemma_place_run(parts, next, next + 1, resolved);
            assert(parts.subrange(next, next + 1) =~= seq![parts[next]]);
            lemma_decode_places_all(
                parts,
                next + 1,
                parts.len() as int,
                joined(resolved, parts[next]),
                exists_path,
            );
        }
    }
}

/// Whatever paths are found to exist, decoding a project directory name only
/// writes some of its dashes (after a leading one) as slashes: the path begins
/// with `/`, and with its slashes written back as dashes it is the name less
/// its leading dash. This holds where the name has no `/` and no part of it
/// between dashes is empty.
pub proof fn law_decoding_only_turns_dashes_into_slashes(
    dir_name: Seq<char>,
    exists_path: spec_fn(Seq<char>) -> bool,
)
    requires
        !has_char(dir_name, '/'),
        forall|k: int|
            0 <= k < pieces(without_leading_dash(dir_name), '-').len() ==> (#[trigger] pieces(
                without_leading_dash(dir_name),
                '-',
            )[k]).len() > 0,
    ensures
        decoded_path(dir_name, exists_path).len() > 1,
        decoded_path(dir_name, exists_path)[0] == '/',
        slashes_as_dashes(decoded_path(dir_name, exists_path).drop_first()) == without_leading_dash(
            dir_name,
        ),
{
    let raw = without_leading_dash(dir_name);
    let parts = pieces(raw, '-');
    crate::text::lemma_pieces_nonempty(raw, '-');
    lemma_pieces_join(raw, '-');
    assert forall|k: int| 0 <= k < parts.len() implies !has_char(#[trigger] parts[k], '/') by {
        if has_char(parts[k], '/') {
            lemma_join_holds_parts(parts, '-', k, '/');
            let i = choose|i: int| 0 <= i < raw.len() && raw[i] == '/';
            if raw != dir_name {
                assert(dir_name[i + 1] == '/');
            }
        }
    }
    reveal_strlit("/");
    lemma_decode_places_all(parts, 0, parts.len() as int, "/"@, exists_path);
    assert(parts.take(parts.len() as int) =~= parts);
}

/// The conversation put to the model keeps every message as it is, but for the
/// first one where that is the user's: the files are shown once, in front of
/// the user's first message, and in front of no later one. Each message keeps
/// its author.
pub proof fn law_files_go_before_the_first_message_only(request: GenerateRequest, chat: Seq<ChatMessage>)
    requires
        is_chat_of(chat, request),
    ensures
        chat.len() == request.messages@.len(),
        forall|k: int|
            0 < k < chat.len() ==> (#[trigger] chat[k]).content@ == request.messages@[k].content@,
        chat.len() > 0 && request.messages@[0].role == Role::User ==> chat[0].content@ == file_prefix(
            request.file_contexts.deep_view(),
        ) + request.messages@[0].content@,
        chat.len() > 0 && request.messages@[0].role == Role::Assistant ==> chat[0].content@
            == request.messages@[0].content@,
        forall|k: int|
            0 <= k < chat.len() ==> ((#[trigger] chat[k]).role@ == "user"@ <==> request.messages@[k].role
                == Role::User),
        forall|k: int|
            0 <= k < chat.len() ==> ((#[trigger] chat[k]).role@ == "assistant"@ <==> request.messages@[
                k].role == Role::Assistant),
{
    reveal_strlit("user");
    reveal_strlit("assistant");
    assert forall|k: int| 0 < k < chat.len() implies (#[trigger] chat[k]).content@
        == request.messages@[k].content@ by {
        assert(request.messages.deep_view()[k] == request.messages@[k].deep_view());
    }
    if chat.len() > 0 {
        assert(request.messages.deep_view()[0] == request.messages@[0].deep_view());
        assert(chat[0].content@ == chat[0].content@);
        if request.messages@[0].role == Role::User && file_prefix(request.file_contexts.deep_view()).len()
            == 0 {
            assert(file_prefix(request.file_contexts.deep_view()) + request.messages@[0].content@
                =~= request.messages@[0].content@);
        }
    }
    assert forall|k: int| 0 <= k < chat.len() implies ((#[trigger] chat[k]).role@ == "user"@
        <==> request.messages@[k].role == Role::User) by {
        if request.messages@[k].role == Role::Assistant {
            assert("assistant"@[0] != "user"@[0]);
        }
    }
    assert forall|k: int| 0 <= k < chat.len() implies ((#[trigger] chat[k]).role@ == "assistant"@
        <==> request.messages@[k].role == Role::Assistant) by {
        if request.messages@[k].role == Role::User {
            assert("assistant"@[0] != "user"@[0]);
        }
    }
}

/// History sessions sorted for listing come newest first by the whole text of
/// their timestamps: of two entries with timestamps, the later one in the list
/// never has the greater timestamp, and an entry without a timestamp is never
/// followed by one with a timestamp.
pub proof fn law_history_sessions_newest_first(
    sessions: Seq<ClaudeSessionSummary>,
    sorted: Seq<ClaudeSessionSummary>,
)
    requires
        is_stable_sort(sorted, sessions),
    ensures
        forall|i: int, j: int|
            0 <= i < j < sorted.len() && (#[trigger] sorted[i]).timestamp is None ==> (
            #[trigger] sorted[j]).timestamp is None,
        forall|i: int, j: int|
            0 <= i < j < sorted.len() && (#[trigger] sorted[i]).timestamp is Some && (
            #[trigger] sorted[j]).timestamp is Some ==> !lex_lt(
                sorted[i].timestamp.unwrap()@,
                sorted[j].timestamp.unwrap()@,
            ),
{
    assert forall|i: int, j: int|
        0 <= i < j < sorted.len() && (#[trigger] sorted[i]).timestamp is None implies (
        #[trigger] sorted[j]).timestamp is None by {
        assert(!sorted[j].precedes(&sorted[i]));
    }
    assert forall|i: int, j: int|
        0 <= i < j < sorted.len() && (#[trigger] sorted[i]).timestamp is Some && (
        #[trigger] sorted[j]).timestamp is Some implies !lex_lt(
        sorted[i].timestamp.unwrap()@,
        sorted[j].timestamp.unwrap()@,
    ) by {
        assert(!sorted[j].precedes(&sorted[i]));
    }
}

/// Each entry of a listing shows one of the listed sessions, each session
/// once: its identifier, title, times and whether it is expired, and as its
/// message count the number of all its messages.
pub proof fn law_listing_counts_every_message(
    sessions: Seq<Session>,
    now: i128,
    listed: Seq<SessionSummary>,
)
    requires
        is_stable_sort(listed, summaries_of(sessions, now)),
    ensures
        listed.len() == sessions.len(),
        exists|p: Seq<int>|
            {
                &&& p.len() == sessions.len()
                &&& forall|k: int, l: int| 0 <= k < l < p.len() ==> #[trigger] p[k] != #[trigger] p[l]
                &&& forall|k: int|
                    0 <= k < p.len() ==> {
                        &&& 0 <= #[trigger] p[k] < sessions.len()
                        &&& listed[k].id == sessions[p[k]].id
                        &&& listed[k].title == sessions[p[k]].title
                        &&& listed[k].created_at == sessions[p[k]].created_at
                        &&& listed[k].last_active == sessions[p[k]].last_active
                        &&& listed[k].message_count == sessions[p[k]].messages@.len() as usize
                        &&& listed[k].expired == expired_at(
                            sessions[p[k]].ttl_secs,
                            sessions[p[k]].last_active,
                            now,
                        )
                    }
            },
{
    let p = choose|p: Seq<int>| stable_arrangement(listed, summaries_of(sessions, now), p);
    assert forall|k: int| 0 <= k < p.len() implies 0 <= #[trigger] p[k] < sessions.len()
        && listed[k] == summary_of(sessions[p[k]], now) by {
        assert(summaries_of(sessions, now)[p[k]] == summary_of(sessions[p[k]], now));
    }
}

/// An identifier is among those matching a prefix exactly when a listed
/// session has it and its text form begins with the prefix.
pub proof fn law_prefix_matches_the_start_of_identifiers(
    summaries: Seq<SessionSummary>,
    prefix: Seq<char>,
    id: u128,
)
    ensures
        ids_matching(summaries, prefix).contains(id) <==> exists|k: int|
            0 <= k < summaries.len() && (#[trigger] summaries[k]).id == id && prefix.len() <= 36
                && uuid_hyphenated(id).take(prefix.len() as int) == prefix,
    decreases summaries.len(),
{
    if summaries.len() > 0 {
        let rest = summaries.drop_last();
        law_prefix_matches_the_start_of_identifiers(rest, prefix, id);
        let last = summaries.last();
        let m = ids_matching(rest, prefix);
        if exists|k: int|
            0 <= k < summaries.len() && (#[trigger] summaries[k]).id == id && prefix.len() <= 36
                && uuid_hyphenated(id).take(prefix.len() as int) == prefix {
            let k = choose|k: int|
                0 <= k < summaries.len() && (#[trigger] summaries[k]).id == id && prefix.len() <= 36
                    && uuid_hyphenated(id).take(prefix.len() as int) == prefix;
            if k < summaries.len() - 1 {
                assert(rest[k] == summaries[k]);
                assert(m.contains(id));
                if starts_with_seq(uuid_hyphenated(last.id), prefix) {
                    let i = choose|i: int| 0 <= i < m.len() && m[i] == id;
                    assert(m.push(last.id)[i] == id);
                }
            } else {
                assert(uuid_hyphenated(id).subrange(0, prefix.len() as int) == prefix);
                assert(m.push(last.id)[m.len() as int] == id);
            }
        } else {
            assert forall|k: int| 0 <= k < rest.len() implies !((#[trigger] rest[k]).id == id
                && prefix.len() <= 36 && uuid_hyphenated(id).take(prefix.len() as int) == prefix) by {
                assert(rest[k] == summaries[k]);
            }
            if last.id == id {
                assert(!(uuid_hyphenated(id).take(prefix.len() as int) == prefix && prefix.len()
                    <= 36));
                assert(!starts_with_seq(uuid_hyphenated(last.id), prefix));
            } else if starts_with_seq(uuid_hyphenated(last.id), prefix) {
                assert forall|i: int| 0 <= i < m.push(last.id).len() implies m.push(last.id)[i]
                    != id by {
                    if i < m.len() {
                        assert(m.push(last.id)[i] == m[i]);
                    }
                }
            }
        }
    }
}

} // verus!
