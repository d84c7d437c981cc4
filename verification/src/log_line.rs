//! The grammar of the child's log lines.
//!
//! The child logs one JSON object per line. Three shapes of line carry an
//! event; they are told apart by the fields they hold, in this order of
//! priority:
//!
//! 1. a `network` field whose value, up to its first `/`, is an address in
//!    dotted-quad notation: the address the client was assigned;
//! 2. a `notAfter` field: the time until which the credential is valid;
//! 3. the three fields `level`, `msg` and `error`: a structured log entry.
//!
//! A field is found by its quoted name followed by `:"`, and its value runs up
//! to the next `"`. Every other line carries no event.

use vstd::prelude::*;
use vstd::slice::{slice_subrange, slice_to_vec};
use vstd::string::StringSliceAdditionalSpecFns;
use crate::address::{address_of, dotted, parse_ipv4, Ipv4};
use crate::address::{lemma_address_of_dotted, lemma_dotted_bytes};
use crate::text::{find, find_byte, first_byte, first_match, is_first_match, matches_at};
use crate::text::{lemma_byte_match, lemma_first_match_is, lemma_first_match_some};

verus! {

/// What one line of the child's output says.
#[derive(Clone, Debug, PartialEq, Eq)]
pub enum LogEvent {
    /// The client was assigned an address; `None` stands for the unspecified
    /// address, by which the client reports that it got none.
    IpAssigned(Option<Ipv4>),
    /// The credential is valid until the given time.
    ValidUntil(Vec<u8>),
    /// A structured log entry.
    StructuredLog { level: Vec<u8>, message: Vec<u8>, error: Vec<u8> },
}

/// A log event as a mathematical value.
pub enum LogEventView {
    IpAssigned(Option<Ipv4>),
    ValidUntil(Seq<u8>),
    StructuredLog { level: Seq<u8>, message: Seq<u8>, error: Seq<u8> },
}

impl View for LogEvent {
    type V = LogEventView;

    open spec fn view(&self) -> LogEventView {
        match self {
            LogEvent::IpAssigned(ip) => LogEventView::IpAssigned(*ip),
            LogEvent::ValidUntil(until) => LogEventView::ValidUntil(until@),
            LogEvent::StructuredLog { level, message, error } => LogEventView::StructuredLog {
                level: level@,
                message: message@,
                error: error@,
            },
        }
    }
}

/// The mathematical value of an event that may be missing.
pub open spec fn event_view(event: Option<LogEvent>) -> Option<LogEventView> {
    match event {
        Some(e) => Some(e@),
        None => None,
    }
}

/// The start of the field that holds the assigned address.
pub const ADDRESS_KEY: &'static str = "\"network\":\"";

/// The bytes of the start of the field that holds the assigned address.
pub open spec fn address_key() -> Seq<u8> {
    ADDRESS_KEY.spec_bytes()
}

/// The start of the field that holds the end of the credential's validity.
pub const VALIDITY_KEY: &'static str = "\"notAfter\":\"";

/// The bytes of the start of the field that holds the end of the credential's validity.
pub open spec fn validity_key() -> Seq<u8> {
    VALIDITY_KEY.spec_bytes()
}

/// The start of the field that holds the level of a log entry.
pub const LEVEL_KEY: &'static str = "\"level\":\"";

/// The bytes of the start of the field that holds the level of a log entry.
pub open spec fn level_key() -> Seq<u8> {
    LEVEL_KEY.spec_bytes()
}

/// The start of the field that holds the message of a log entry.
pub const MESSAGE_KEY: &'static str = "\"msg\":\"";

/// The bytes of the start of the field that holds the message of a log entry.
pub open spec fn message_key() -> Seq<u8> {
    MESSAGE_KEY.spec_bytes()
}

/// The start of the field that holds the error of a log entry.
pub const ERROR_KEY: &'static str = "\"error\":\"";

/// The bytes of the start of the field that holds the error of a log entry.
pub open spec fn error_key() -> Seq<u8> {
    ERROR_KEY.spec_bytes()
}

/// The value of the field that starts with `key`: what stands between the
/// leftmost `key` in the line and the next `"` after it.
pub open spec fn field_of(line: Seq<u8>, key: Seq<u8>) -> Option<Seq<u8>> {
    match first_match(line, key) {
        Some(at) => {
            let rest = line.skip(at + key.len());
            match first_byte(rest, 34u8) {
                Some(close) => Some(rest.take(close)),
                None => None,
            }
        },
        None => None,
    }
}

/// The part of a network value that names the address: what stands before
/// its first `/`, all of it where it holds none.
pub open spec fn address_part(value: Seq<u8>) -> Seq<u8> {
    match first_byte(value, 47u8) {
        Some(slash) => value.take(slash),
        None => value,
    }
}

/// The address that a line assigns, if it holds one in its network field.
pub open spec fn assigned_address(line: Seq<u8>) -> Option<Ipv4> {
    match field_of(line, address_key()) {
        Some(value) => address_of(address_part(value)),
        None => None,
    }
}

/// The structured log entry that a line holds, if it has the three fields.
pub open spec fn structured_entry(line: Seq<u8>) -> Option<LogEventView> {
    match (field_of(line, level_key()), field_of(line, message_key()), field_of(line, error_key())) {
        (Some(level), Some(message), Some(error)) => Some(
            LogEventView::StructuredLog { level, message, error },
        ),
        _ => None,
    }
}

/// The event that a line carries, if any.
pub open spec fn event_of(line: Seq<u8>) -> Option<LogEventView> {
    match assigned_address(line) {
        Some(ip) => Some(
            LogEventView::IpAssigned(
                if ip.unspecified() {
                    None
                } else {
                    Some(ip)
                },
            ),
        ),
        None => match field_of(line, validity_key()) {
            Some(until) => Some(LogEventView::ValidUntil(until)),
            None => structured_entry(line),
        },
    }
}

/// Finds the value of the field that starts with `key`.
pub fn field_value<'a>(line: &'a [u8], key: &[u8]) -> (r: Option<&'a [u8]>)
    ensures
        match r {
            Some(value) => field_of(line@, key@) == Some(value@),
            None => field_of(line@, key@) is None,
        },
{
    let len = line.len();
    match find(line, key) {
        Some(at) => {
            proof {
                lemma_first_match_some(line@, key@);
            }
            let rest = slice_subrange(line, at + key.len(), len);
            assert(rest@ == line@.skip(at + key@.len()));
            match find_byte(rest, 34) {
                Some(close) => {
                    let value = slice_subrange(rest, 0, close);
                    assert(value@ == rest@.take(close as int));
                    Some(value)
                },
                None => None,
            }
        },
        None => None,
    }
}

/// Finds the address that a line assigns.
pub fn try_get_ipv4(line: &[u8]) -> (r: Option<Ipv4>)
    ensures
        r == assigned_address(line@),
{
    match field_value(line, ADDRESS_KEY.as_bytes()) {
        Some(value) => {
            let part = match find_byte(value, 47) {
                Some(slash) => slice_subrange(value, 0, slash),
                None => value,
            };
            assert(part@ == address_part(value@));
            parse_ipv4(part)
        },
        None => None,
    }
}

/// Finds the time until which the credential is valid.
pub fn try_get_valid(line: &[u8]) -> (r: Option<&[u8]>)
    ensures
        match r {
            Some(until) => field_of(line@, validity_key()) == Some(until@),
            None => field_of(line@, validity_key()) is None,
        },
{
    field_value(line, VALIDITY_KEY.as_bytes())
}

/// Finds the level, the message and the error of a structured log entry.
pub fn try_get_log_line(line: &[u8]) -> (r: Option<(&[u8], &[u8], &[u8])>)
    ensures
        match r {
            Some((level, message, error)) => structured_entry(line@) == Some(
                LogEventView::StructuredLog { level: level@, message: message@, error: error@ },
            ),
            None => structured_entry(line@) is None,
        },
{
    let level = match field_value(line, LEVEL_KEY.as_bytes()) {
        Some(value) => value,
        None => {
            return None;
        },
    };
    let message = match field_value(line, MESSAGE_KEY.as_bytes()) {
        Some(value) => value,
        None => {
            return None;
        },
    };
    let error = match field_value(line, ERROR_KEY.as_bytes()) {
        Some(value) => value,
        None => {
            return None;
        },
    };
    Some((level, message, error))
}

/// Classifies one line of the child's output. A line that carries no event
/// gives `None`; no line is an error.
pub fn parse_line(line: &[u8]) -> (r: Option<LogEvent>)
    ensures
        event_view(r) == event_of(line@),
{
    if let Some(ip) = try_get_ipv4(line) {
        if ip.is_unspecified() {
            return Some(LogEvent::IpAssigned(None));
        }
        return Some(LogEvent::IpAssigned(Some(ip)));
    }
    if let Some(until) = try_get_valid(line) {
        return Some(LogEvent::ValidUntil(slice_to_vec(until)));
    }
    match try_get_log_line(line) {
        Some((level, message, error)) => Some(
            LogEvent::StructuredLog {
                level: slice_to_vec(level),
                message: slice_to_vec(message),
                error: slice_to_vec(error),
            },
        ),
        None => None,
    }
}

/// The unspecified address is the sign of failure: a line reports an
/// address as assigned exactly when its network field holds an address other
/// than the unspecified one, and it reports failure exactly when the field
/// holds the unspecified address.
pub proof fn lemma_unspecified_is_failure(line: Seq<u8>)
    ensures
        match assigned_address(line) {
            Some(ip) => event_of(line) == Some(
                LogEventView::IpAssigned(
                    if ip.unspecified() {
                        None
                    } else {
                        Some(ip)
                    },
                ),
            ),
            None => !(event_of(line) matches Some(LogEventView::IpAssigned(_))),
        },
        event_of(line) matches Some(LogEventView::IpAssigned(Some(ip))) ==> !ip.unspecified(),
{
}

/// A line whose network field holds the dotted-quad notation of an address,
/// alone or followed by a `/` and more, assigns that address. Here `at` is the
/// place of the leftmost network field, `tail` is what follows the address
/// within the value, and `after` is what follows the closing `"`.
pub proof fn lemma_network_line(line: Seq<u8>, at: int, ip: Ipv4, tail: Seq<u8>, after: Seq<u8>)
    requires
        is_first_match(line, address_key(), at),
        line.skip(at + address_key().len()) == dotted(ip) + tail + seq![34u8] + after,
        tail.len() > 0 ==> tail[0] == 47,
        forall|i: int| 0 <= i < tail.len() ==> tail[i] != 34,
    ensures
        assigned_address(line) == Some(ip),
        event_of(line) == Some(
            LogEventView::IpAssigned(
                if ip.unspecified() {
                    None
                } else {
                    Some(ip)
                },
            ),
        ),
{
    let key = address_key();
    let text = dotted(ip);
    let rest = line.skip(at + key.len());
    let value = text + tail;
    let close = value.len() as int;
    lemma_first_match_is(line, key, at);
    lemma_dotted_bytes(ip);
    assert forall|j: int| 0 <= j < close implies !matches_at(rest, seq![34u8], j) by {
        lemma_byte_match(rest, 34u8, j);
        if j < text.len() {
            assert(rest[j] == text[j]);
        } else {
            assert(rest[j] == tail[j - text.len()]);
        }
    }
    lemma_byte_match(rest, 34u8, close);
    assert(rest[close] == 34);
    lemma_first_match_is(rest, seq![34u8], close);
    assert(rest.take(close) =~= value);
    assert(field_of(line, key) == Some(value));
    let split = text.len() as int;
    assert forall|j: int| 0 <= j < split implies !matches_at(value, seq![47u8], j) by {
        lemma_byte_match(value, 47u8, j);
        assert(value[j] == text[j]);
    }
    if tail.len() > 0 {
        lemma_byte_match(value, 47u8, split);
        assert(value[split] == tail[0]);
        lemma_first_match_is(value, seq![47u8], split);
        assert(value.take(split) =~= text);
    } else {
        assert(value =~= text);
        assert forall|j: int| !matches_at(text, seq![47u8], j) by {
            lemma_byte_match(text, 47u8, j);
        }
        assert(first_byte(text, 47u8) is None);
    }
    assert(address_part(value) == text);
    lemma_address_of_dotted(ip);
}

} // verus!
