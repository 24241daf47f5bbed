//! Naming of the Redis streams that hold the logs, and the order in which
//! read entries are handed back.

use vstd::prelude::*;
use vstd::string::*;
use crate::models::LogEntry;
use crate::text::chars_of;

verus! {

/// The key of the stream that holds every entry of every service.
pub open spec fn global_stream() -> Seq<char> {
    "logs:__all__"@
}

/// The key of the stream of one service, or of the global stream.
pub open spec fn stream_key_of(service: Option<Seq<char>>) -> Seq<char> {
    match service {
        Some(s) => "logs:"@ + s,
        None => global_stream(),
    }
}

/// The service whose stream has the key `key`, if `key` names one.
pub open spec fn service_of_key(key: Seq<char>) -> Option<Seq<char>> {
    if key.len() >= 5 && key.take(5) == "logs:"@ && key != global_stream() {
        Some(key.skip(5))
    } else {
        None
    }
}

/// The key of the global stream.
pub fn global_stream_key() -> (r: String)
    ensures
        r@ == global_stream(),
{
    "logs:__all__".to_owned()
}

/// The stream that holds the entries of `service`, or all entries when no
/// service is given.
pub fn stream_key(service: Option<&str>) -> (r: String)
    ensures
        r@ == stream_key_of(
            match service {
                Some(s) => Some(s@),
                None => None,
            },
        ),
{
    match service {
        Some(svc) => {
            let mut k = "logs:".to_owned();
            k.append(svc);
            k
        },
        None => global_stream_key(),
    }
}

/// The service whose stream is `key`: `None` for the global stream and for a
/// key outside the `logs:` namespace.
pub fn service_from_stream_key(key: &str) -> (r: Option<String>)
    ensures
        match service_of_key(key@) {
            Some(s) => r matches Some(x) && x@ == s,
            None => r is None,
        },
{
    proof {
        reveal_strlit("logs:");
    }
    let v = chars_of(key);
    let n: usize = v.len();
    if n < 5 || v[0] != 'l' || v[1] != 'o' || v[2] != 'g' || v[3] != 's' || v[4] != ':' {
        proof {
            if key@.len() >= 5 && key@.take(5) == "logs:"@ {
                assert(key@.take(5)[0] == 'l' && key@.take(5)[1] == 'o' && key@.take(5)[2] == 'g'
                    && key@.take(5)[3] == 's' && key@.take(5)[4] == ':');
            }
        }
        return None;
    }
    assert(key@.take(5) =~= "logs:"@);
    if key.to_owned() == global_stream_key() {
        return None;
    }
    let rest = key.substring_char(5, n);
    Some(rest.to_owned())
}

/// The entries of a newest-first read, oldest first, without the items that
/// could not be decoded (`None`).
pub open spec fn chronological(newest_first: Seq<Option<LogEntry>>) -> Seq<LogEntry>
    decreases newest_first.len(),
{
    if newest_first.len() == 0 {
        Seq::empty()
    } else {
        let rest = chronological(newest_first.drop_last());
        match newest_first.last() {
            Some(e) => seq![e] + rest,
            None => rest,
        }
    }
}

/// Turns a newest-first read of a stream into its entries in the order they
/// were written, dropping the items that could not be decoded.
pub fn restore_chronological(newest_first: Vec<Option<LogEntry>>) -> (r: Vec<LogEntry>)
    ensures
        r@ == chronological(newest_first@),
{
    let ghost orig = newest_first@;
    let mut rest = newest_first;
    let mut out: Vec<LogEntry> = Vec::new();
    while rest.len() > 0
        invariant
            chronological(orig) == out@ + chronological(rest@),
        decreases rest.len(),
    {
        let ghost before = rest@;
        let item = rest.pop();
        proof {
            assert(rest@ =~= before.drop_last());
        }
        match item {
            Some(Some(e)) => {
                out.push(e);
                assert(out@ + chronological(rest@) =~= out@.drop_last() + chronological(before));
            },
            _ => {},
        }
    }
    assert(out@ + chronological(rest@) =~= out@);
    out
}

/// Stream keys tell services apart: two services share a stream only when
/// they are the same service.
pub proof fn lemma_stream_key_injective(a: Seq<char>, b: Seq<char>)
    requires
        stream_key_of(Some(a)) == stream_key_of(Some(b)),
    ensures
        a == b,
{
    reveal_strlit("logs:");
    let ka = stream_key_of(Some(a));
    assert(a =~= ka.skip(5));
    assert(b =~= ka.skip(5));
}

/// The service named in a stream key is read back from it, except for the
/// service called `__all__`, whose stream is the global one.
pub proof fn lemma_service_of_stream_key(s: Seq<char>)
    requires
        s != "__all__"@,
    ensures
        service_of_key(stream_key_of(Some(s))) == Some(s),
{
    reveal_strlit("logs:");
    reveal_strlit("logs:__all__");
    reveal_strlit("__all__");
    let k = stream_key_of(Some(s));
    assert(k.take(5) =~= "logs:"@);
    assert(k.skip(5) =~= s);
    if k == global_stream() {
        assert(s =~= "__all__"@) by {
            assert(global_stream().skip(5) =~= "__all__"@);
        }
    }
}

} // verus!
