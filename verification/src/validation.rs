//! Checks on an ingest request before anything is stored.

use vstd::prelude::*;
use crate::errors::{LogSystemError, LogSystemResult};
use crate::models::{IngestEntry, IngestPayload};
use crate::text::{is_blank, str_contains_char, str_is_blank};

verus! {

/// Whether a service name holds a character that stream keys reserve
/// (`:` separates key parts, `*` and `?` are key-pattern wildcards).
pub open spec fn has_reserved_char(s: Seq<char>) -> bool {
    s.contains(':') || s.contains('*') || s.contains('?')
}

/// Why one entry is refused, if it is. Trimming only drops whitespace at the
/// ends, so a trimmed text is empty exactly when the text is blank, and holds
/// a reserved character exactly when the text does.
pub open spec fn entry_problem(e: IngestEntry) -> Option<Seq<char>> {
    if is_blank(e.service@) {
        Some("Service must not be blank"@)
    } else if has_reserved_char(e.service@) {
        Some("Service must not contain ':', '*', or '?' characters"@)
    } else if is_blank(e.message@) {
        Some("Message must not be blank"@)
    } else {
        None
    }
}

/// The problem of the first refused entry, if any.
pub open spec fn first_problem(logs: Seq<IngestEntry>) -> Option<Seq<char>>
    decreases logs.len(),
{
    if logs.len() == 0 {
        None
    } else {
        match entry_problem(logs[0]) {
            Some(m) => Some(m),
            None => first_problem(logs.drop_first()),
        }
    }
}

/// A batch passes the entry checks exactly when every entry does, and when
/// it does not, the problem reported is that of the first refused entry.
pub proof fn lemma_first_problem_is_first_refused(logs: Seq<IngestEntry>)
    ensures
        first_problem(logs) is None <==> forall|i: int|
            0 <= i < logs.len() ==> entry_problem(#[trigger] logs[i]) is None,
        first_problem(logs) matches Some(m) ==> exists|i: int|
            0 <= i < logs.len() && entry_problem(#[trigger] logs[i]) == Some(m) && forall|j: int|
                0 <= j < i ==> entry_problem(#[trigger] logs[j]) is None,
    decreases logs.len(),
{
    if logs.len() > 0 {
        let rest = logs.drop_first();
        lemma_first_problem_is_first_refused(rest);
        assert forall|i: int| 0 < i < logs.len() implies logs[i] == rest[i - 1] by {}
        match entry_problem(logs[0]) {
            Some(m) => {
                assert(entry_problem(logs[0]) == Some(m));
            },
            None => {
                if first_problem(rest) is None {
                    assert forall|i: int| 0 <= i < logs.len() implies entry_problem(
                        #[trigger] logs[i],
                    ) is None by {
                        if i > 0 {
                            assert(logs[i] == rest[i - 1]);
                        }
                    }
                } else {
                    let m = first_problem(rest)->Some_0;
                    let k = choose|k: int|
                        0 <= k < rest.len() && entry_problem(#[trigger] rest[k]) == Some(m) && forall|
                            j: int,
                        | 0 <= j < k ==> entry_problem(#[trigger] rest[j]) is None;
                    assert(logs[k + 1] == rest[k]);
                    assert forall|j: int| 0 <= j < k + 1 implies entry_problem(
                        #[trigger] logs[j],
                    ) is None by {
                        if j > 0 {
                            assert(logs[j] == rest[j - 1]);
                        }
                    }
                    assert(!(forall|i: int|
                        0 <= i < logs.len() ==> entry_problem(#[trigger] logs[i]) is None)) by {
                        assert(entry_problem(logs[k + 1]) is Some);
                    }
                }
            },
        }
    }
}

/// Why a batch is refused, if it is: it is empty, or one of its entries is.
pub open spec fn ingest_problem(logs: Seq<IngestEntry>) -> Option<Seq<char>> {
    if logs.len() == 0 {
        Some("Logs can't be empty"@)
    } else {
        first_problem(logs)
    }
}

/// Whether `r` is the answer that the problem `p` calls for.
pub open spec fn answers_problem(p: Option<Seq<char>>, r: LogSystemResult<()>) -> bool {
    match p {
        None => r is Ok,
        Some(m) => r matches Err(LogSystemError::Validation(x)) && x@ == m,
    }
}

fn entry_check(e: &IngestEntry) -> (r: Option<String>)
    ensures
        match entry_problem(*e) {
            None => r is None,
            Some(m) => r matches Some(x) && x@ == m,
        },
{
    let service = e.service.as_str();
    if str_is_blank(service) {
        return Some("Service must not be blank".to_owned());
    }
    if str_contains_char(service, ':') || str_contains_char(service, '*') || str_contains_char(
        service,
        '?',
    ) {
        return Some("Service must not contain ':', '*', or '?' characters".to_owned());
    }
    if str_is_blank(e.message.as_str()) {
        return Some("Message must not be blank".to_owned());
    }
    None
}

/// Refuses an empty batch, and a batch with an entry whose service is blank
/// or holds `:`, `*` or `?`, or whose message is blank; the first such entry
/// names the error.
pub fn validate_ingest_input(payload: &IngestPayload) -> (r: LogSystemResult<()>)
    ensures
        answers_problem(ingest_problem(payload.logs@), r),
        r is Ok <==> payload.logs@.len() > 0 && forall|i: int|
            0 <= i < payload.logs@.len() ==> entry_problem(#[trigger] payload.logs@[i]) is None,
        r matches Err(LogSystemError::Validation(m)) ==> (payload.logs@.len() > 0 ==> exists|i: int|
            0 <= i < payload.logs@.len() && entry_problem(#[trigger] payload.logs@[i]) == Some(m@)
                && forall|j: int| 0 <= j < i ==> entry_problem(#[trigger] payload.logs@[j]) is None),
{
    proof {
        lemma_first_problem_is_first_refused(payload.logs@);
    }
    let logs = &payload.logs;
    if logs.len() == 0 {
        return Err(LogSystemError::Validation("Logs can't be empty".to_owned()));
    }
    let n: usize = logs.len();
    let mut i: usize = 0;
    assert(logs@.skip(0) =~= logs@);
    while i < n
        invariant
            n == logs@.len(),
            logs@ == payload.logs@,
            i <= n,
            first_problem(logs@) == first_problem(logs@.skip(i as int)),
        decreases n - i,
    {
        assert(logs@.skip(i as int)[0] == logs@[i as int]);
        assert(logs@.skip(i as int).drop_first() =~= logs@.skip(i + 1));
        let check = entry_check(&logs[i]);
        assert(logs@.skip(i as int).len() > 0);
        if let Some(m) = check {
            assert(first_problem(logs@.skip(i as int)) == entry_problem(logs@[i as int]));
            proof {
                lemma_first_problem_is_first_refused(payload.logs@);
            }
            return Err(LogSystemError::Validation(m));
        }
        i = i + 1;
    }
    assert(logs@.skip(n as int) =~= Seq::<IngestEntry>::empty());
    Ok(())
}

} // verus!
