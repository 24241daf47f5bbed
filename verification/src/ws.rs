//! The decisions of a live log subscription over a WebSocket: which filters
//! are accepted, which broadcast entries are forwarded, and how client
//! messages change the filter.

use vstd::prelude::*;
use vstd::string::*;
use crate::models::{LogEntry, WSFilter, filter_matches};
use crate::text::{decimal, push_decimal, utf8_len_exceeds};

verus! {

/// The number of bytes of the UTF-8 encoding of a text (what `str::len` gives).
pub open spec fn utf8_len(s: Seq<char>) -> nat {
    vstd::utf8::encode_utf8(s).len()
}

/// Why a filter is refused, if it is: its service is empty, or longer than
/// 64 bytes.
pub open spec fn filter_problem(f: WSFilter) -> Option<Seq<char>> {
    match f.service {
        Some(s) => if s@.len() == 0 {
            Some("Service field must not be empty"@)
        } else if utf8_len(s@) > 64 {
            Some("Servic field must be of 64 character of fewer"@)
        } else {
            None
        },
        None => None,
    }
}

/// Accepts a filter whose service, if given, is non-empty and at most 64
/// bytes long.
pub fn validate_filter(filter: &WSFilter) -> (r: Result<(), &'static str>)
    ensures
        match filter_problem(*filter) {
            None => r is Ok,
            Some(m) => r matches Err(x) && x@ == m,
        },
{
    if let Some(svc) = &filter.service {
        let s = svc.as_str();
        if s.is_empty() {
            return Err("Service field must not be empty");
        }
        if utf8_len_exceeds(s, 64) {
            return Err("Servic field must be of 64 character of fewer");
        }
    }
    Ok(())
}

/// What the broadcast side of a subscription delivers.
pub enum BroadcastEvent {
    /// A newly stored entry.
    Entry(LogEntry),
    /// The subscriber fell behind and this many entries were dropped.
    Lagged(u64),
    /// The broadcast channel is closed.
    Closed,
}

/// What to do about a broadcast event.
pub enum SendAction {
    /// Send this entry to the client.
    Forward(LogEntry),
    /// The entry does not pass the filter.
    Skip,
    /// Tell the client that this many entries were dropped.
    LagNotice(u64),
    /// End the subscription.
    Stop,
}

/// A message from the client.
pub enum ClientMessage {
    /// A text message that reads as a filter.
    FilterUpdate(WSFilter),
    /// A text message that does not read as a filter.
    Unparsable,
    /// The client closes the connection.
    Close,
    /// Any other message (ping, binary, ...).
    Other,
}

/// What a client message did.
pub enum ClientAction {
    /// The filter was replaced.
    Updated,
    /// The new filter was refused for this reason; the old one stays.
    Rejected(&'static str),
    /// Nothing changed.
    Ignored,
    /// End the subscription.
    Stop,
}

/// The state of one subscription: the filter it currently applies.
pub struct SocketSession {
    filter: WSFilter,
}

impl SocketSession {
    /// The filter currently applied.
    pub closed spec fn filter(&self) -> WSFilter {
        self.filter
    }

    /// Opens a subscription with `filter`, which must pass `validate_filter`.
    pub fn open(filter: WSFilter) -> (r: Result<SocketSession, &'static str>)
        ensures
            match filter_problem(filter) {
                None => r matches Ok(s) && s.filter() == filter,
                Some(m) => r matches Err(x) && x@ == m,
            },
    {
        match validate_filter(&filter) {
            Ok(()) => Ok(SocketSession { filter }),
            Err(e) => Err(e),
        }
    }

    /// The filter currently applied.
    pub fn current_filter(&self) -> (r: &WSFilter)
        ensures
            *r == self.filter(),
    {
        &self.filter
    }

    /// Decides what to do about a broadcast event: forward an entry that
    /// passes the filter and skip the others, pass a lag on to the client,
    /// stop when the channel is closed.
    pub fn on_broadcast(&self, event: BroadcastEvent) -> (r: SendAction)
        ensures
            match event {
                BroadcastEvent::Entry(e) => if filter_matches(self.filter(), e) {
                    r == SendAction::Forward(e)
                } else {
                    r is Skip
                },
                BroadcastEvent::Lagged(n) => r == SendAction::LagNotice(n),
                BroadcastEvent::Closed => r is Stop,
            },
    {
        match event {
            BroadcastEvent::Entry(e) => {
                if self.filter.matches(&e) {
                    SendAction::Forward(e)
                } else {
                    SendAction::Skip
                }
            },
            BroadcastEvent::Lagged(n) => SendAction::LagNotice(n),
            BroadcastEvent::Closed => SendAction::Stop,
        }
    }

    /// Applies a client message: a valid filter replaces the current one, an
    /// invalid one is refused and the current one stays; a close ends the
    /// subscription; anything else is ignored.
    pub fn on_client_message(&mut self, msg: ClientMessage) -> (r: ClientAction)
        ensures
            match msg {
                ClientMessage::FilterUpdate(f) => match filter_problem(f) {
                    None => r is Updated && final(self).filter() == f,
                    Some(m) => {
                        &&& (r matches ClientAction::Rejected(x) && x@ == m)
                        &&& final(self).filter() == old(self).filter()
                    },
                },
                ClientMessage::Close => r is Stop && final(self).filter() == old(self).filter(),
                _ => r is Ignored && final(self).filter() == old(self).filter(),
            },
            // a session never holds a filter that `validate_filter` refuses
            filter_problem(old(self).filter()) is None ==> filter_problem(final(self).filter()) is None,
    {
        match msg {
            ClientMessage::FilterUpdate(f) => match validate_filter(&f) {
                Ok(()) => {
                    self.filter = f;
                    ClientAction::Updated
                },
                Err(e) => ClientAction::Rejected(e),
            },
            ClientMessage::Close => ClientAction::Stop,
            _ => ClientAction::Ignored,
        }
    }
}

/// The text of the notice sent to a client that fell `n` entries behind.
pub open spec fn lag_notice_text(n: nat) -> Seq<char> {
    decimal(n) + " entries werre dropped due to slow consumption"@
}

/// The notice sent to a client that fell `dropped` entries behind.
pub fn lag_notice_message(dropped: u64) -> (r: String)
    ensures
        r@ == lag_notice_text(dropped as nat),
{
    let mut s = String::new();
    push_decimal(&mut s, dropped);
    s.append(" entries werre dropped due to slow consumption");
    assert(s@ =~= lag_notice_text(dropped as nat));
    s
}

} // verus!
