//! Service settings, with their defaults.

use vstd::prelude::*;
use vstd::string::*;
use crate::text::{parse_unsigned, parse_unsigned_decimal};

verus! {

/// Settings of the service.
#[derive(Clone, Debug)]
pub struct Config {
    pub redis_url: String,
    pub http_port: u16,
    /// Maximum log entries retained per Redis stream
    pub stream_max_len: usize,
}

/// The Redis URL used when none is set.
pub open spec fn default_redis_url() -> Seq<char> {
    "redis://127.0.0.1:6379"@
}

/// A number setting: the set text when it parses as a number of the setting's
/// type, the default otherwise.
pub open spec fn number_setting(text: Option<String>, max: nat, default: nat) -> nat {
    match text {
        Some(t) => match parse_unsigned(t@, max) {
            Some(v) => v,
            None => default,
        },
        None => default,
    }
}

fn number_or(text: Option<String>, max: u64, default: u64) -> (r: u64)
    requires
        default <= max,
    ensures
        r as nat == number_setting(text, max as nat, default as nat),
        r <= max,
{
    match text {
        Some(t) => match parse_unsigned_decimal(t.as_str(), max) {
            Some(v) => v,
            None => default,
        },
        None => default,
    }
}

impl Config {
    /// Settings from the values of `REDIS_URL`, `HTTP_PORT` and
    /// `STREAM_MAX_LEN` (each `None` when unset): a missing URL falls back to
    /// the default one, a missing or unparsable port to 3000, a missing or
    /// unparsable length to 10000.
    pub fn from_settings(
        redis_url: Option<String>,
        http_port: Option<String>,
        stream_max_len: Option<String>,
    ) -> (r: Config)
        ensures
            r.redis_url@ == (match redis_url {
                Some(u) => u@,
                None => default_redis_url(),
            }),
            r.http_port as nat == number_setting(http_port, u16::MAX as nat, 3000),
            r.stream_max_len as nat == number_setting(stream_max_len, usize::MAX as nat, 10_000),
    {
        let url = match redis_url {
            Some(u) => u,
            None => "redis://127.0.0.1:6379".to_owned(),
        };
        let port: u64 = number_or(http_port, u16::MAX as u64, 3000);
        let max_len: u64 = number_or(stream_max_len, usize::MAX as u64, 10_000);
        Config { redis_url: url, http_port: port as u16, stream_max_len: max_len as usize }
    }
}

} // verus!
