//! Log levels, log entries, ingest payloads and subscription filters.

use core::cmp::Ordering;
use vstd::prelude::*;
use vstd::std_specs::cmp::PartialOrdSpecImpl;
use vstd::string::*;

verus! {

/// Severity of a log entry, from least to most severe.
#[derive(Clone, Copy, Debug, PartialEq, Eq, Structural, Ord, Hash)]
pub enum LogLevel {
    Trace,
    Debug,
    Info,
    Warn,
    Error,
    Fatal,
}

/// Position of a level in the severity order (`Trace` lowest).
pub open spec fn level_rank(l: LogLevel) -> nat {
    match l {
        LogLevel::Trace => 0,
        LogLevel::Debug => 1,
        LogLevel::Info => 2,
        LogLevel::Warn => 3,
        LogLevel::Error => 4,
        LogLevel::Fatal => 5,
    }
}

/// The lowercase name of a level, as it is displayed and serialised.
pub open spec fn level_name(l: LogLevel) -> Seq<char> {
    match l {
        LogLevel::Trace => "trace"@,
        LogLevel::Debug => "debug"@,
        LogLevel::Info => "info"@,
        LogLevel::Warn => "warn"@,
        LogLevel::Error => "error"@,
        LogLevel::Fatal => "fatal"@,
    }
}

/// The level whose lowercase name is exactly `name`, if any.
pub open spec fn level_named(name: Seq<char>) -> Option<LogLevel> {
    if name == "trace"@ {
        Some(LogLevel::Trace)
    } else if name == "debug"@ {
        Some(LogLevel::Debug)
    } else if name == "info"@ {
        Some(LogLevel::Info)
    } else if name == "warn"@ {
        Some(LogLevel::Warn)
    } else if name == "error"@ {
        Some(LogLevel::Error)
    } else if name == "fatal"@ {
        Some(LogLevel::Fatal)
    } else {
        None
    }
}

/// The message with which an unknown level name is refused.
pub open spec fn unknown_level_message(name: Seq<char>) -> Seq<char> {
    "Unknown log level: "@ + name
}

/// What reading a level from an already lowercased `name` gives.
pub open spec fn level_from_name_result(name: Seq<char>, r: Result<LogLevel, String>) -> bool {
    match level_named(name) {
        Some(l) => r == Ok::<LogLevel, String>(l),
        None => r matches Err(m) && m@ == unknown_level_message(name),
    }
}

/// The Unicode lowercase mapping of a text, as `str::to_lowercase` computes it.
pub uninterp spec fn unicode_lowercase(s: Seq<char>) -> Seq<char>;

/// Calls `str::to_lowercase`; its result is the Unicode lowercase mapping of
/// `s`, a function of `s` alone, named `unicode_lowercase`.
#[verifier::external_body]
fn to_lowercase(s: &str) -> (r: String)
    ensures
        r@ == unicode_lowercase(s@),
{
    s.to_lowercase()
}

impl LogLevel {
    /// Position in the severity order.
    pub fn rank(&self) -> (r: u8)
        ensures
            r as nat == level_rank(*self),
    {
        match self {
            LogLevel::Trace => 0,
            LogLevel::Debug => 1,
            LogLevel::Info => 2,
            LogLevel::Warn => 3,
            LogLevel::Error => 4,
            LogLevel::Fatal => 5,
        }
    }

    /// The lowercase name of the level (what `Display` writes).
    pub fn as_str(&self) -> (r: &'static str)
        ensures
            r@ == level_name(*self),
    {
        match self {
            LogLevel::Trace => "trace",
            LogLevel::Debug => "debug",
            LogLevel::Info => "info",
            LogLevel::Warn => "warn",
            LogLevel::Error => "error",
            LogLevel::Fatal => "fatal",
        }
    }

    /// Reads a level from a name that is already lowercase.
    pub fn from_name(name: &str) -> (r: Result<LogLevel, String>)
        ensures
            level_from_name_result(name@, r),
    {
        let owned = name.to_owned();
        if owned == "trace".to_owned() {
            Ok(LogLevel::Trace)
        } else if owned == "debug".to_owned() {
            Ok(LogLevel::Debug)
        } else if owned == "info".to_owned() {
            Ok(LogLevel::Info)
        } else if owned == "warn".to_owned() {
            Ok(LogLevel::Warn)
        } else if owned == "error".to_owned() {
            Ok(LogLevel::Error)
        } else if owned == "fatal".to_owned() {
            Ok(LogLevel::Fatal)
        } else {
            let mut m = "Unknown log level: ".to_owned();
            m.append(name);
            Err(m)
        }
    }

    /// Reads a level from a name in any case: the name is lowercased first,
    /// and an unknown name is refused with a message that quotes it lowercased.
    pub fn parse(s: &str) -> (r: Result<LogLevel, String>)
        ensures
            level_from_name_result(unicode_lowercase(s@), r),
    {
        let lower = to_lowercase(s);
        LogLevel::from_name(lower.as_str())
    }
}

/// How two levels compare: by severity.
pub open spec fn level_order(a: LogLevel, b: LogLevel) -> Option<Ordering> {
    if level_rank(a) < level_rank(b) {
        Some(Ordering::Less)
    } else if level_rank(a) == level_rank(b) {
        Some(Ordering::Equal)
    } else {
        Some(Ordering::Greater)
    }
}

impl PartialOrd for LogLevel {
    /// Levels compare by severity, in declaration order (as the derived
    /// `Ord` does).
    fn partial_cmp(&self, other: &LogLevel) -> (r: Option<Ordering>) {
        let a: u8 = self.rank();
        let b: u8 = other.rank();
        if a < b {
            Some(Ordering::Less)
        } else if a == b {
            Some(Ordering::Equal)
        } else {
            Some(Ordering::Greater)
        }
    }
}

impl PartialOrdSpecImpl for LogLevel {
    open spec fn obeys_partial_cmp_spec() -> bool {
        true
    }

    open spec fn partial_cmp_spec(&self, other: &LogLevel) -> Option<Ordering> {
        level_order(*self, *other)
    }
}

impl std::str::FromStr for LogLevel {
    type Err = String;

    /// Reads a level in any case, as `LogLevel::parse` does.
    fn from_str(s: &str) -> (r: Result<LogLevel, String>)
        ensures
            level_from_name_result(unicode_lowercase(s@), r),
    {
        LogLevel::parse(s)
    }
}

/// Reading back the name of a level gives the level again.
pub proof fn lemma_level_name_roundtrip(l: LogLevel)
    ensures
        level_named(level_name(l)) == Some(l),
{
    reveal_strlit("trace");
    reveal_strlit("debug");
    reveal_strlit("info");
    reveal_strlit("warn");
    reveal_strlit("error");
    reveal_strlit("fatal");
    // the names differ in their first or second character
    assert("trace"@[0] != "debug"@[0] && "trace"@[0] != "info"@[0] && "trace"@[0] != "warn"@[0]
        && "trace"@[0] != "error"@[0] && "trace"@[0] != "fatal"@[0]);
    assert("debug"@[0] != "info"@[0] && "debug"@[0] != "warn"@[0] && "debug"@[0] != "error"@[0]
        && "debug"@[0] != "fatal"@[0]);
    assert("info"@[0] != "warn"@[0] && "info"@[0] != "error"@[0] && "info"@[0] != "fatal"@[0]);
    assert("warn"@[0] != "error"@[0] && "warn"@[0] != "fatal"@[0]);
    assert("error"@[0] != "fatal"@[0]);
}


/// A UTC instant: whole seconds since the Unix epoch and the nanoseconds past
/// that second.
#[derive(Clone, Copy, Debug, PartialEq, Eq, Structural)]
pub struct Timestamp {
    pub secs: i64,
    pub nanos: u32,
}

/// A stored log entry.
#[derive(Clone, Debug)]
pub struct LogEntry {
    pub id: String,
    pub service: String,
    pub level: LogLevel,
    pub message: String,
    pub timestamp: Timestamp,
    /// Structured fields, as JSON text (`null` when there are none).
    pub fields: String,
}

/// One entry of an ingest request; `timestamp` may be left out, and the
/// server then fills it in.
#[derive(Debug)]
pub struct IngestEntry {
    pub service: String,
    pub level: LogLevel,
    pub message: String,
    pub timestamp: Option<Timestamp>,
    /// Structured fields, as JSON text (`null` when there are none).
    pub fields: String,
}

/// A batch of entries sent in one ingest request.
#[derive(Debug)]
pub struct IngestPayload {
    pub logs: Vec<IngestEntry>,
}

/// The lowercase hyphenated text of a version-4 UUID: 36 characters, hyphens
/// at positions 8, 13, 18 and 23, lowercase hex digits elsewhere, version
/// digit `4` at position 14 and a variant digit from `8`..`b` at position 19.
pub open spec fn is_v4_uuid_text(s: Seq<char>) -> bool {
    &&& s.len() == 36
    &&& forall|i: int|
        0 <= i < 36 ==> if i == 8 || i == 13 || i == 18 || i == 23 {
            #[trigger] s[i] == '-'
        } else {
            ('0' <= s[i] <= '9') || ('a' <= s[i] <= 'f')
        }
    &&& s[14] == '4'
    &&& (s[19] == '8' || s[19] == '9' || s[19] == 'a' || s[19] == 'b')
}

/// A fresh entry id: `uuid::Uuid::new_v4()` written with `to_string`, that is
/// in lowercase hyphenated form. Which id comes out rests on chance; only its
/// shape is stated.
#[verifier::external_body]
fn new_entry_id() -> (id: String)
    ensures
        is_v4_uuid_text(id@),
{
    uuid::Uuid::new_v4().to_string()
}

/// The current time: `chrono::Utc::now()`, as seconds and nanoseconds.
/// It reads the system clock, so only the range of the result is stated:
/// the clock is read as a duration since the Unix epoch (`Utc::now` panics
/// on a clock set before it), whose sub-second part is below one second.
#[verifier::external_body]
fn now_timestamp() -> (t: Timestamp)
    ensures
        t.secs >= 0,
        t.nanos < 1_000_000_000,
{
    let now = chrono::Utc::now();
    Timestamp { secs: now.timestamp(), nanos: now.timestamp_subsec_nanos() }
}

/// The entry that an ingest entry becomes under the given id, when `now` is
/// the time of storing it.
pub open spec fn entry_from_ingest(e: IngestEntry, id: Seq<char>, now: Timestamp, r: LogEntry) -> bool {
    &&& r.id@ == id
    &&& r.service == e.service
    &&& r.level == e.level
    &&& r.message == e.message
    &&& r.timestamp == (match e.timestamp {
        Some(t) => t,
        None => now,
    })
    &&& r.fields == e.fields
}

impl LogEntry {
    /// A new entry with a fresh id, the current time and no fields: what
    /// `new_at` makes from a fresh id and the clock reading taken here.
    pub fn new(service: String, level: LogLevel, message: String) -> (r: LogEntry)
        ensures
            is_v4_uuid_text(r.id@),
            r.service == service,
            r.level == level,
            r.message == message,
            r.timestamp.secs >= 0,
            r.timestamp.nanos < 1_000_000_000,
            r.fields@ == "null"@,
    {
        let id = new_entry_id();
        let now = now_timestamp();
        LogEntry::new_at(service, level, message, id, now)
    }

    /// The entry that `new` makes when the fresh id is `id` and the clock
    /// reads `now`: no fields, stamped with `now`.
    pub fn new_at(service: String, level: LogLevel, message: String, id: String, now: Timestamp) -> (r:
        LogEntry)
        ensures
            r.id == id,
            r.service == service,
            r.level == level,
            r.message == message,
            r.timestamp == now,
            r.fields@ == "null"@,
    {
        LogEntry { id, service, level, message, timestamp: now, fields: "null".to_owned() }
    }

    /// The entry that `entry` becomes under the id `id`, stamped with `now`
    /// unless it carries its own timestamp.
    pub fn from_ingest_at(entry: IngestEntry, id: String, now: Timestamp) -> (r: LogEntry)
        ensures
            entry_from_ingest(entry, id@, now, r),
    {
        let timestamp = match entry.timestamp {
            Some(t) => t,
            None => now,
        };
        LogEntry {
            id,
            service: entry.service,
            level: entry.level,
            message: entry.message,
            timestamp,
            fields: entry.fields,
        }
    }

    /// The entry that `entry` becomes when it is stored: a fresh id, and the
    /// current time unless it carries its own timestamp.
    pub fn from_ingest(entry: IngestEntry) -> (r: LogEntry)
        ensures
            is_v4_uuid_text(r.id@),
            r.service == entry.service,
            r.level == entry.level,
            r.message == entry.message,
            r.fields == entry.fields,
            entry.timestamp matches Some(t) ==> r.timestamp == t,
            entry.timestamp is None ==> r.timestamp.secs >= 0 && r.timestamp.nanos < 1_000_000_000,
    {
        let id = new_entry_id();
        let now = match entry.timestamp {
            Some(t) => t,
            None => now_timestamp(),
        };
        LogEntry::from_ingest_at(entry, id, now)
    }
}

/// What a live subscriber wants to see: entries of one service, entries at
/// or above a level, or both; a missing part lets everything through.
#[derive(Clone, Debug)]
pub struct WSFilter {
    pub service: Option<String>,
    pub min_level: Option<LogLevel>,
}

/// Whether `f` lets the entry `e` through.
pub open spec fn filter_matches(f: WSFilter, e: LogEntry) -> bool {
    &&& match f.service {
        Some(s) => e.service@ == s@,
        None => true,
    }
    &&& match f.min_level {
        Some(m) => level_rank(e.level) >= level_rank(m),
        None => true,
    }
}

impl Default for WSFilter {
    fn default() -> (r: WSFilter)
        ensures
            r.service is None,
            r.min_level is None,
    {
        WSFilter { service: None, min_level: None }
    }
}

impl WSFilter {
    /// Whether this filter lets `entry` through.
    pub fn matches(&self, entry: &LogEntry) -> (r: bool)
        ensures
            r == filter_matches(*self, *entry),
    {
        if let Some(svc) = &self.service {
            if !(entry.service == *svc) {
                return false;
            }
        }
        if let Some(min) = &self.min_level {
            if entry.level < *min {
                return false;
            }
        }
        true
    }
}

/// Severity rises strictly along the declaration order
/// Trace < Debug < Info < Warn < Error < Fatal, and `<` on levels follows it.
pub proof fn lemma_severity_increases()
    ensures
        level_rank(LogLevel::Trace) < level_rank(LogLevel::Debug),
        level_rank(LogLevel::Debug) < level_rank(LogLevel::Info),
        level_rank(LogLevel::Info) < level_rank(LogLevel::Warn),
        level_rank(LogLevel::Warn) < level_rank(LogLevel::Error),
        level_rank(LogLevel::Error) < level_rank(LogLevel::Fatal),
        level_order(LogLevel::Trace, LogLevel::Debug) == Some(Ordering::Less),
        level_order(LogLevel::Debug, LogLevel::Info) == Some(Ordering::Less),
        level_order(LogLevel::Info, LogLevel::Warn) == Some(Ordering::Less),
        level_order(LogLevel::Warn, LogLevel::Error) == Some(Ordering::Less),
        level_order(LogLevel::Error, LogLevel::Fatal) == Some(Ordering::Less),
{
}

/// A filter with a minimum level lets through exactly the entries at that
/// level or a later one in the order Trace, Debug, Info, Warn, Error, Fatal:
/// with minimum `Info`, `Debug` and `Trace` are held back and `Info`, `Warn`,
/// `Error`, `Fatal` pass.
pub proof fn lemma_min_level_passes_later_levels(e: LogEntry)
    ensures
        filter_matches(WSFilter { service: None, min_level: Some(LogLevel::Info) }, e) <==> (
        e.level == LogLevel::Info || e.level == LogLevel::Warn || e.level == LogLevel::Error
            || e.level == LogLevel::Fatal),
        filter_matches(WSFilter { service: None, min_level: Some(LogLevel::Trace) }, e),
        filter_matches(WSFilter { service: None, min_level: Some(LogLevel::Fatal) }, e) <==> e.level
            == LogLevel::Fatal,
        filter_matches(WSFilter { service: None, min_level: Some(LogLevel::Debug) }, e) <==> e.level
            != LogLevel::Trace,
{
}

/// A filter that names neither a service nor a level lets every entry through.
pub proof fn lemma_empty_filter_matches_all(f: WSFilter, e: LogEntry)
    requires
        f.service is None,
        f.min_level is None,
    ensures
        filter_matches(f, e),
{
}

/// Raising the minimum level only lets fewer entries through: an entry that
/// passes a filter also passes it with any lower minimum level.
pub proof fn lemma_filter_level_monotone(f: WSFilter, lower: LogLevel, e: LogEntry)
    requires
        filter_matches(f, e),
        f.min_level matches Some(m) && level_rank(lower) <= level_rank(m),
    ensures
        filter_matches(WSFilter { service: f.service, min_level: Some(lower) }, e),
{
}

} // verus!
