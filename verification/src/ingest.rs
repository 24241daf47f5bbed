//! The decisions of the HTTP endpoints: ingesting a batch, reading a
//! service's history, listing services, health and unknown routes.

use vstd::prelude::*;
use vstd::string::*;
use crate::errors::{LogSystemError, LogSystemResult};
use crate::models::{IngestEntry, IngestPayload, LogEntry, is_v4_uuid_text};
use crate::text::{chars_le, chars_le_exec, chars_of, lemma_chars_le_total, lemma_chars_le_transitive};
use crate::validation::{ingest_problem, validate_ingest_input};

verus! {

broadcast use vstd::seq_lib::group_to_multiset_ensures, vstd::seq_lib::to_multiset_insert;

/// Whether every service name comes no later than the ones after it.
pub open spec fn services_sorted(s: Seq<String>) -> bool {
    forall|i: int, j: int| 0 <= i < j < s.len() ==> chars_le(#[trigger] s[i]@, #[trigger] s[j]@)
}

fn insert_sorted(out: &mut Vec<String>, x: String)
    requires
        services_sorted(old(out)@),
    ensures
        services_sorted(final(out)@),
        final(out)@.to_multiset() == old(out)@.to_multiset().insert(x),
{
    let xv = chars_of(x.as_str());
    let n: usize = out.len();
    let mut pos: usize = 0;
    let mut found = false;
    while pos < n && !found
        invariant
            n == out@.len(),
            xv@ == x@,
            pos <= n,
            services_sorted(out@),
            forall|k: int| 0 <= k < pos ==> chars_le(#[trigger] out@[k]@, x@),
            found ==> pos < n && !chars_le(out@[pos as int]@, x@),
        decreases n - pos + (if found { 0int } else { 1int }),
    {
        let cv = chars_of(out[pos].as_str());
        if chars_le_exec(&cv, &xv) {
            pos = pos + 1;
        } else {
            found = true;
        }
    }
    let ghost before = out@;
    proof {
        // everything from `pos` on comes after `x`
        assert forall|k: int| pos <= k < n implies chars_le(x@, #[trigger] before[k]@) by {
            lemma_chars_le_total(before[pos as int]@, x@);
            if k > pos {
                lemma_chars_le_transitive(x@, before[pos as int]@, before[k]@);
            }
        }
        before.insert_ensures(pos as int, x);
    }
    out.insert(pos, x);
    proof {
        let after = out@;
        assert forall|i: int, j: int| 0 <= i < j < after.len() implies chars_le(
            #[trigger] after[i]@,
            #[trigger] after[j]@,
        ) by {
            if j < pos {
            } else if j == pos {
                assert(after[i] == before[i]);
            } else if i < pos {
                assert(after[j] == before[j - 1]);
                lemma_chars_le_transitive(before[i]@, x@, before[j - 1]@);
            } else if i == pos {
                assert(after[j] == before[j - 1]);
            } else {
                assert(after[i] == before[i - 1]);
                assert(after[j] == before[j - 1]);
            }
        }
    }
}

/// The answer to a listing of services.
pub struct ServiceList {
    pub services: Vec<String>,
    pub count: usize,
}

/// The known services in sorted order (code-point order, as `String`'s
/// `sort` puts them), with their number.
pub fn list_services_reply(services: Vec<String>) -> (r: ServiceList)
    ensures
        services_sorted(r.services@),
        r.services@.to_multiset() == services@.to_multiset(),
        r.count == services@.len(),
{
    let ghost orig = services@;
    let mut input = services;
    let mut out: Vec<String> = Vec::new();
    while input.len() > 0
        invariant
            services_sorted(out@),
            out@.to_multiset().add(input@.to_multiset()) == orig.to_multiset(),
        decreases input.len(),
    {
        let ghost before = input@;
        let x = input.pop().unwrap();
        proof {
            assert(before =~= input@.push(x));
        }
        insert_sorted(&mut out, x);
        proof {
            assert(out@.to_multiset().add(input@.to_multiset()) =~= orig.to_multiset());
        }
    }
    proof {
        assert(out@.to_multiset().add(input@.to_multiset()) =~= out@.to_multiset());
        orig.to_multiset_ensures();
        out@.to_multiset_ensures();
    }
    let count: usize = out.len();
    ServiceList { services: out, count }
}


/// How many of the recorded store attempts succeeded.
pub open spec fn count_stored(outcomes: Seq<bool>) -> nat
    decreases outcomes.len(),
{
    if outcomes.len() == 0 {
        0
    } else {
        count_stored(outcomes.drop_last()) + if outcomes.last() {
            1nat
        } else {
            0nat
        }
    }
}

proof fn lemma_count_stored_bound(outcomes: Seq<bool>)
    ensures
        count_stored(outcomes) <= outcomes.len(),
    decreases outcomes.len(),
{
    if outcomes.len() > 0 {
        lemma_count_stored_bound(outcomes.drop_last());
    }
}

/// The answer to an ingest request: how many entries were stored and how many
/// could not be.
pub struct IngestSummary {
    pub inserted: usize,
    pub failed: usize,
}

/// A validated batch being stored, one entry at a time: `next_entry` hands
/// out the next entry to store, and `record` takes the outcome of storing it.
pub struct IngestBatch {
    /// The entries not yet handed out, the next one last.
    remaining: Vec<IngestEntry>,
    total: usize,
    inserted: usize,
    failed: usize,
    in_flight: bool,
    logs: Ghost<Seq<IngestEntry>>,
    outcomes: Ghost<Seq<bool>>,
}

impl IngestBatch {
    /// The entries of the batch, in the order they were sent.
    pub closed spec fn logs(&self) -> Seq<IngestEntry> {
        self.logs@
    }

    /// The outcomes recorded so far, in order: `true` for a stored entry.
    pub closed spec fn outcomes(&self) -> Seq<bool> {
        self.outcomes@
    }

    /// Whether an entry has been handed out and its outcome not yet recorded.
    pub closed spec fn in_flight(&self) -> bool {
        self.in_flight
    }

    /// How many entries have been handed out.
    pub open spec fn handed(&self) -> nat {
        self.outcomes().len() + if self.in_flight() {
            1nat
        } else {
            0nat
        }
    }

    pub closed spec fn wf(&self) -> bool {
        &&& self.total == self.logs@.len()
        &&& self.remaining@.len() + self.handed() == self.total
        &&& forall|j: int|
            0 <= j < self.remaining@.len() ==> #[trigger] self.remaining@[j] == self.logs@[self.total
                - 1 - j]
        &&& self.inserted == count_stored(self.outcomes@)
        &&& self.inserted + self.failed == self.outcomes@.len()
    }

    /// Validates the payload; a valid one becomes a batch with nothing handed
    /// out yet, an invalid one is refused as `validate_ingest_input` says.
    pub fn begin(payload: IngestPayload) -> (r: LogSystemResult<IngestBatch>)
        ensures
            match ingest_problem(payload.logs@) {
                Some(m) => r matches Err(LogSystemError::Validation(x)) && x@ == m,
                None => r matches Ok(b) && b.wf() && b.logs() == payload.logs@ && b.outcomes()
                    == Seq::<bool>::empty() && !b.in_flight(),
            },
    {
        match validate_ingest_input(&payload) {
            Err(e) => Err(e),
            Ok(()) => {
                let ghost logs = payload.logs@;
                let mut input = payload.logs;
                let total: usize = input.len();
                let mut remaining: Vec<IngestEntry> = Vec::new();
                while input.len() > 0
                    invariant
                        total == logs.len(),
                        input@ == logs.take(input@.len() as int),
                        remaining@.len() + input@.len() == total,
                        forall|j: int|
                            0 <= j < remaining@.len() ==> #[trigger] remaining@[j] == logs[total - 1
                                - j],
                    decreases input.len(),
                {
                    let ghost before = input@;
                    let e = input.pop().unwrap();
                    proof {
                        assert(e == logs[before.len() - 1]);
                        assert(input@ =~= logs.take(input@.len() as int));
                    }
                    remaining.push(e);
                }
                Ok(
                    IngestBatch {
                        remaining,
                        total,
                        inserted: 0,
                        failed: 0,
                        in_flight: false,
                        logs: Ghost(logs),
                        outcomes: Ghost(Seq::empty()),
                    },
                )
            },
        }
    }

    /// Whether an entry has been handed out whose outcome is not yet recorded.
    pub fn awaiting_outcome(&self) -> (r: bool)
        ensures
            r == self.in_flight(),
    {
        self.in_flight
    }

    /// Hands out the next entry to store, in the order of the batch, with a
    /// fresh id and the current time unless the entry carries its own; `None`
    /// once every entry has been handed out and every outcome recorded.
    pub fn next_entry(&mut self) -> (r: Option<LogEntry>)
        requires
            old(self).wf(),
            !old(self).in_flight(),
        ensures
            final(self).wf(),
            final(self).logs() == old(self).logs(),
            final(self).outcomes() == old(self).outcomes(),
            match r {
                None => {
                    &&& old(self).outcomes().len() == old(self).logs().len()
                    &&& !final(self).in_flight()
                },
                Some(e) => {
                    let src = old(self).logs()[old(self).outcomes().len() as int];
                    &&& old(self).outcomes().len() < old(self).logs().len()
                    &&& final(self).in_flight()
                    &&& is_v4_uuid_text(e.id@)
                    &&& e.service == src.service
                    &&& e.level == src.level
                    &&& e.message == src.message
                    &&& e.fields == src.fields
                    &&& (src.timestamp matches Some(t) ==> e.timestamp == t)
                    &&& (src.timestamp is None ==> e.timestamp.secs >= 0 && e.timestamp.nanos
                        < 1_000_000_000)
                },
            },
    {
        match self.remaining.pop() {
            None => None,
            Some(entry) => {
                self.in_flight = true;
                Some(LogEntry::from_ingest(entry))
            },
        }
    }

    /// Records whether the entry last handed out was stored, and answers
    /// whether that entry is to be broadcast to live subscribers: exactly
    /// when it was stored.
    pub fn record(&mut self, stored: bool) -> (broadcast: bool)
        requires
            old(self).wf(),
            old(self).in_flight(),
        ensures
            broadcast == stored,
            final(self).wf(),
            final(self).logs() == old(self).logs(),
            final(self).outcomes() == old(self).outcomes().push(stored),
            !final(self).in_flight(),
    {
        proof {
            lemma_count_stored_bound(self.outcomes@);
            assert(self.outcomes@.push(stored).drop_last() =~= self.outcomes@);
        }
        if stored {
            self.inserted = self.inserted + 1;
        } else {
            self.failed = self.failed + 1;
        }
        self.in_flight = false;
        self.outcomes = Ghost(self.outcomes@.push(stored));
        stored
    }

    /// The counts so far: `inserted` is the number of stored entries,
    /// `failed` the number of the others; once the batch is through, the two
    /// add up to the number of entries sent.
    pub fn summary(&self) -> (r: IngestSummary)
        requires
            self.wf(),
        ensures
            r.inserted == count_stored(self.outcomes()),
            r.inserted + r.failed == self.outcomes().len(),
            !self.in_flight() && self.outcomes().len() == self.logs().len() ==> r.inserted
                + r.failed == self.logs().len(),
    {
        IngestSummary { inserted: self.inserted, failed: self.failed }
    }
}


/// The query of a history request: whose entries, and how many at most.
#[derive(Debug)]
pub struct HistoryParams {
    pub service: Option<String>,
    pub count: Option<usize>,
}

/// How many entries a history request reads: the given count, 100 when none
/// is given; a count of zero is refused.
pub open spec fn history_count_of(count: Option<usize>) -> Option<usize> {
    match count {
        Some(c) => if c == 0 {
            None
        } else {
            Some(c)
        },
        None => Some(100),
    }
}

/// The name under which a history request looks its service up: the empty
/// name when no service is given.
pub open spec fn lookup_name_of(service: Option<String>) -> Seq<char> {
    match service {
        Some(s) => s@,
        None => Seq::empty(),
    }
}

impl HistoryParams {
    /// The number of entries to read, or the refusal of a zero count.
    pub fn resolved_count(&self) -> (r: LogSystemResult<usize>)
        ensures
            match history_count_of(self.count) {
                Some(c) => r == Ok::<usize, LogSystemError>(c),
                None => r matches Err(LogSystemError::Validation(m)) && m@
                    == "Must be greater than zero"@,
            },
            // only a count of zero is refused; any other count is read as given
            self.count matches Some(c) ==> (c >= 1 ==> r == Ok::<usize, LogSystemError>(c)),
            self.count == Some(0usize) ==> r is Err,
            self.count is None ==> r == Ok::<usize, LogSystemError>(100),
    {
        match self.count {
            Some(c) => if c == 0 {
                Err(LogSystemError::Validation("Must be greater than zero".to_owned()))
            } else {
                Ok(c)
            },
            None => Ok(100),
        }
    }

    /// The name whose existence the request checks.
    pub fn lookup_name(&self) -> (r: &str)
        ensures
            r@ == lookup_name_of(self.service),
    {
        proof {
            reveal_strlit("");
        }
        match &self.service {
            Some(s) => s.as_str(),
            None => "",
        }
    }
}

/// The answer to a history request.
pub struct HistoryReply {
    pub logs: Vec<LogEntry>,
    pub count: usize,
    pub service: Option<String>,
}

/// The message with which a history request for an unknown service is refused.
pub open spec fn unknown_service_message(name: Seq<char>) -> Seq<char> {
    "Service "@ + name + " has not sent any logs"@
}

/// The answer to a history request once its entries are read and it is known
/// whether its service has sent logs: the entries with their number, or a
/// not-found error that names the service.
pub fn history_reply(service: Option<String>, service_exists: bool, entries: Vec<LogEntry>) -> (r:
    LogSystemResult<HistoryReply>)
    ensures
        service_exists ==> (r matches Ok(reply) && reply.logs@ == entries@ && reply.count
            == entries@.len() && reply.service == service),
        !service_exists ==> (r matches Err(LogSystemError::NotFound(m)) && m@
            == unknown_service_message(lookup_name_of(service))),
{
    if !service_exists {
        let mut m = "Service ".to_owned();
        match &service {
            Some(s) => m.append(s.as_str()),
            None => m.append(""),
        }
        m.append(" has not sent any logs");
        proof {
            reveal_strlit("");
        }
        assert(m@ =~= unknown_service_message(lookup_name_of(service)));
        return Err(LogSystemError::NotFound(m));
    }
    let count: usize = entries.len();
    Ok(HistoryReply { logs: entries, count, service })
}

/// The version reported by the health check: the configured one, `unknown`
/// when none is set.
pub fn health_version(configured: Option<String>) -> (r: String)
    ensures
        r@ == (match configured {
            Some(v) => v@,
            None => "unknown"@,
        }),
{
    match configured {
        Some(v) => v,
        None => "unknown".to_owned(),
    }
}

/// The answer to a request for a route that does not exist.
pub fn no_route(path: &str) -> (r: LogSystemError)
    ensures
        r matches LogSystemError::NotFound(m) && m@ == "No route for "@ + path@,
{
    let mut m = "No route for ".to_owned();
    m.append(path);
    LogSystemError::NotFound(m)
}

} // verus!
