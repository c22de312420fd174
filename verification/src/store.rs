//! The stored sessions: where they live, how they are listed, found by a prefix
//! of their identifier, and which of them are removed as expired.
use vstd::prelude::*;

use crate::clock::now_nanos;
use crate::ident::{id_text, uuid_hyphenated};
use crate::order::{is_stable_sort, stable_sort, Ranked};
use crate::paths::{join_path, joined};
use crate::session::{expired_at, Session};
use crate::text::{concat2, decimal, decimal_string, ends_with, ends_with_seq, starts_with, starts_with_seq};

verus! {

/// What a listing shows of a stored session.
#[derive(Debug)]
pub struct SessionSummary {
    pub id: u128,
    pub title: Option<String>,
    pub created_at: i128,
    pub last_active: i128,
    pub message_count: usize,
    pub expired: bool,
}

/// Summaries are listed newest first: one comes before another when it was
/// active later.
impl Ranked for SessionSummary {
    open spec fn precedes(&self, other: &Self) -> bool {
        self.last_active > other.last_active
    }

    fn comes_before(&self, other: &Self) -> (b: bool) {
        self.last_active > other.last_active
    }

    proof fn lemma_irreflexive(a: &Self) {
    }

    proof fn lemma_transitive(a: &Self, b: &Self, c: &Self) {
    }

    proof fn lemma_split(a: &Self, b: &Self, c: &Self) {
    }
}

/// The summary of session `s` at time `now`.
pub open spec fn summary_of(s: Session, now: i128) -> SessionSummary {
    SessionSummary {
        id: s.id,
        title: s.title,
        created_at: s.created_at,
        last_active: s.last_active,
        message_count: s.messages@.len() as usize,
        expired: expired_at(s.ttl_secs, s.last_active, now),
    }
}

/// The summaries of `sessions` at time `now`, in the same order.
pub open spec fn summaries_of(sessions: Seq<Session>, now: i128) -> Seq<SessionSummary> {
    sessions.map_values(|s: Session| summary_of(s, now))
}

/// The identifiers of the expired summaries of `s`, in order.
pub open spec fn expired_ids(s: Seq<SessionSummary>) -> Seq<u128>
    decreases s.len(),
{
    if s.len() == 0 {
        Seq::empty()
    } else if s.last().expired {
        expired_ids(s.drop_last()).push(s.last().id)
    } else {
        expired_ids(s.drop_last())
    }
}

/// The identifiers among `s` whose text form begins with `prefix`, in order.
pub open spec fn ids_matching(s: Seq<SessionSummary>, prefix: Seq<char>) -> Seq<u128>
    decreases s.len(),
{
    if s.len() == 0 {
        Seq::empty()
    } else if starts_with_seq(uuid_hyphenated(s.last().id), prefix) {
        ids_matching(s.drop_last(), prefix).push(s.last().id)
    } else {
        ids_matching(s.drop_last(), prefix)
    }
}

/// The name of the file that holds the session with identifier `id`.
pub open spec fn session_file_name(id: u128) -> Seq<char> {
    uuid_hyphenated(id) + ".json"@
}

/// Whether a directory entry named `name` has the extension `json`: the name
/// ends in `.json` and something stands before that dot.
pub open spec fn has_json_extension(name: Seq<char>) -> bool {
    name.len() > 5 && ends_with_seq(name, ".json"@)
}

/// Why no single session was found for an identifier prefix.
#[derive(Debug)]
pub enum ResolveError {
    /// No session's identifier begins with the prefix.
    NoMatch(String),
    /// The prefix begins the identifiers of this many sessions.
    Ambiguous(String, usize),
}

/// The text that describes a resolution error.
pub open spec fn resolve_error_text(e: ResolveError) -> Seq<char> {
    match e {
        ResolveError::NoMatch(p) => "no session matching prefix '"@ + p@ + "'"@,
        ResolveError::Ambiguous(p, n) => "ambiguous prefix '"@ + p@ + "': "@ + decimal(n as nat)
            + " sessions match"@,
    }
}

impl ResolveError {
    /// The text that describes this error.
    pub fn message(&self) -> (r: String)
        ensures
            r@ == resolve_error_text(*self),
    {
        match self {
            ResolveError::NoMatch(p) => {
                let mut r = concat2("no session matching prefix '", p.as_str());
                r.append("'");
                r
            },
            ResolveError::Ambiguous(p, n) => {
                let mut r = concat2("ambiguous prefix '", p.as_str());
                r.append("': ");
                let digits = decimal_string(*n as u64);
                r.append(digits.as_str());
                r.append(" sessions match");
                r
            },
        }
    }
}

/// The summary of `s` at time `now`.
pub fn summarize_at(s: &Session, now: i128) -> (r: SessionSummary)
    ensures
        r == summary_of(*s, now),
{
    let title = match &s.title {
        Some(t) => Some(t.clone()),
        None => None,
    };
    SessionSummary {
        id: s.id,
        title,
        created_at: s.created_at,
        last_active: s.last_active,
        message_count: s.messages.len(),
        expired: s.is_expired_at(now),
    }
}

/// Whether a directory entry named `name` holds a stored session.
pub fn is_session_file(name: &str) -> (b: bool)
    ensures
        b == has_json_extension(name@),
{
    name.unicode_len() > 5 && ends_with(name, ".json")
}

/// Keeps the sessions in the directory `storage_dir`, one file per session,
/// named by the session's identifier.
#[derive(Debug)]
pub struct SessionManager {
    storage_dir: String,
}

impl SessionManager {
    /// The directory where the sessions are kept.
    pub closed spec fn dir(&self) -> Seq<char> {
        self.storage_dir@
    }

    /// A manager for the sessions kept in `storage_dir`.
    pub fn new(storage_dir: &str) -> (m: Self)
        ensures
            m.dir() == storage_dir@,
    {
        SessionManager { storage_dir: storage_dir.to_owned() }
    }

    /// The directory where the sessions are kept.
    pub fn storage_dir(&self) -> (d: &str)
        ensures
            d@ == self.dir(),
    {
        self.storage_dir.as_str()
    }

    /// The path of the file that holds the session with identifier `id`.
    pub fn session_path(&self, id: u128) -> (p: String)
        ensures
            p@ == joined(self.dir(), session_file_name(id)),
    {
        let name = id_text(id);
        let file = concat2(name.as_str(), ".json");
        join_path(self.storage_dir.as_str(), file.as_str())
    }

    /// The summaries of the stored `sessions` at time `now`, newest first;
    /// sessions active at the same time keep their order.
    pub fn list_at(&self, sessions: &Vec<Session>, now: i128) -> (r: Vec<SessionSummary>)
        ensures
            is_stable_sort(r@, summaries_of(sessions@, now)),
    {
        let mut v: Vec<SessionSummary> = Vec::new();
        let n = sessions.len();
        let mut i: usize = 0;
        while i < n
            invariant
                n == sessions@.len(),
                i <= n,
                v@.len() == i,
                forall|k: int| 0 <= k < i ==> #[trigger] v@[k] == summary_of(sessions@[k], now),
            decreases n - i,
        {
            let s = summarize_at(&sessions[i], now);
            v.push(s);
            i = i + 1;
        }
        assert(v@ =~= summaries_of(sessions@, now));
        stable_sort(v)
    }

    /// The summaries of the stored `sessions` at the present time, newest first.
    pub fn list(&self, sessions: &Vec<Session>) -> (r: Vec<SessionSummary>)
        ensures
            exists|now: i128| is_stable_sort(r@, summaries_of(sessions@, now)),
    {
        let now = now_nanos();
        self.list_at(sessions, now)
    }

    /// The identifiers of the listed sessions that are expired, in listing
    /// order: the sessions that a cleanup deletes.
    pub fn cleanup_expired(&self, summaries: &Vec<SessionSummary>) -> (r: Vec<u128>)
        ensures
            r@ == expired_ids(summaries@),
    {
        let mut r: Vec<u128> = Vec::new();
        let n = summaries.len();
        let mut i: usize = 0;
        while i < n
            invariant
                n == summaries@.len(),
                i <= n,
                r@ == expired_ids(summaries@.take(i as int)),
            decreases n - i,
        {
            assert(summaries@.take(i + 1).drop_last() =~= summaries@.take(i as int));
            if summaries[i].expired {
                r.push(summaries[i].id);
            }
            i = i + 1;
        }
        assert(summaries@.take(n as int) =~= summaries@);
        r
    }

    /// The identifier of the one listed session whose identifier, in text form,
    /// begins with `prefix`.
    pub fn resolve_prefix(&self, summaries: &Vec<SessionSummary>, prefix: &str) -> (r: Result<
        u128,
        ResolveError,
    >)
        ensures
            ({
                let m = ids_matching(summaries@, prefix@);
                &&& m.len() == 0 <==> (r matches Err(ResolveError::NoMatch(p)) && p@ == prefix@)
                &&& m.len() == 1 <==> r == Ok::<u128, ResolveError>(m[0])
                &&& m.len() > 1 <==> (r matches Err(ResolveError::Ambiguous(p, c)) && p@ == prefix@
                    && c == m.len())
            }),
    {
        let mut found: Vec<u128> = Vec::new();
        let n = summaries.len();
        let mut i: usize = 0;
        while i < n
            invariant
                n == summaries@.len(),
                i <= n,
                found@ == ids_matching(summaries@.take(i as int), prefix@),
                found@.len() <= i,
            decreases n - i,
        {
            assert(summaries@.take(i + 1).drop_last() =~= summaries@.take(i as int));
            let text = id_text(summaries[i].id);
            if starts_with(text.as_str(), prefix) {
                found.push(summaries[i].id);
            }
            i = i + 1;
        }
        assert(summaries@.take(n as int) =~= summaries@);
        if found.len() == 0 {
            Err(ResolveError::NoMatch(prefix.to_owned()))
        } else if found.len() == 1 {
            Ok(found[0])
        } else {
            Err(ResolveError::Ambiguous(prefix.to_owned(), found.len()))
        }
    }
}

} // verus!
