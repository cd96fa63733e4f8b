//! From a response of the remote service to the outcome of the attempt.

use crate::decimal::{read_scaled, read_scaled_spec, read_whole, read_whole_spec};
use crate::json::{json_number_member, number_member};
use crate::outcome::{FatalReason, Outcome, RejectReason};
use vstd::prelude::*;
use crate::text::utf8_text;
use vstd::utf8::{
    encode_utf8, encode_utf8_decode_utf8, encode_utf8_valid_utf8, is_ascii_chars,
    is_ascii_chars_encode_utf8,
};

verus! {

/// The status of a delivered message.
pub const STATUS_OK: u16 = 200;

/// The status of a refused request.
pub const STATUS_FORBIDDEN: u16 = 403;

/// The status of a request for something that is not there.
pub const STATUS_NOT_FOUND: u16 = 404;

/// The status of a request that came too soon.
pub const STATUS_TOO_MANY_REQUESTS: u16 = 429;

/// The error code for a channel the bot may not see.
pub const CODE_MISSING_ACCESS: u64 = 50001;

/// The error code for a channel the bot may not write to.
pub const CODE_MISSING_PERMISSIONS: u64 = 50013;

/// The error code for a channel that does not exist.
pub const CODE_UNKNOWN_CHANNEL: u64 = 10003;

/// The outcome that a status code and the two fields of the body stand for.
/// `code` and `retry_after_ms` are `None` where the body has no such field
/// or could not be read at all.
pub open spec fn classify_spec(status: u16, code: Option<u64>, retry_after_ms: Option<u64>)
    -> Outcome {
    if status == STATUS_OK {
        Outcome::Success
    } else if status == STATUS_FORBIDDEN {
        if code == Some(CODE_MISSING_ACCESS) {
            Outcome::Fatal { reason: FatalReason::MissingAccess }
        } else if code == Some(CODE_MISSING_PERMISSIONS) {
            Outcome::Fatal { reason: FatalReason::MissingPermissions }
        } else {
            Outcome::Rejected { reason: RejectReason::Forbidden }
        }
    } else if status == STATUS_NOT_FOUND {
        if code == Some(CODE_UNKNOWN_CHANNEL) {
            Outcome::Fatal { reason: FatalReason::UnknownDestination }
        } else {
            Outcome::Rejected { reason: RejectReason::NotFound }
        }
    } else if status == STATUS_TOO_MANY_REQUESTS {
        Outcome::RateLimited {
            retry_after_ms: match retry_after_ms {
                Some(ms) => ms,
                None => 0,
            },
        }
    } else {
        Outcome::Rejected { reason: RejectReason::Unknown }
    }
}

/// Classifies a response whose body has been read already.
pub fn classify_parsed(status: u16, code: Option<u64>, retry_after_ms: Option<u64>) -> (out:
    Outcome)
    ensures
        out == classify_spec(status, code, retry_after_ms),
{
    if status == STATUS_OK {
        Outcome::Success
    } else if status == STATUS_FORBIDDEN {
        match code {
            Some(c) => {
                if c == CODE_MISSING_ACCESS {
                    Outcome::Fatal { reason: FatalReason::MissingAccess }
                } else if c == CODE_MISSING_PERMISSIONS {
                    Outcome::Fatal { reason: FatalReason::MissingPermissions }
                } else {
                    Outcome::Rejected { reason: RejectReason::Forbidden }
                }
            },
            None => Outcome::Rejected { reason: RejectReason::Forbidden },
        }
    } else if status == STATUS_NOT_FOUND {
        match code {
            Some(c) => {
                if c == CODE_UNKNOWN_CHANNEL {
                    Outcome::Fatal { reason: FatalReason::UnknownDestination }
                } else {
                    Outcome::Rejected { reason: RejectReason::NotFound }
                }
            },
            None => Outcome::Rejected { reason: RejectReason::NotFound },
        }
    } else if status == STATUS_TOO_MANY_REQUESTS {
        match retry_after_ms {
            Some(ms) => Outcome::RateLimited { retry_after_ms: ms },
            None => Outcome::RateLimited { retry_after_ms: 0 },
        }
    } else {
        Outcome::Rejected { reason: RejectReason::Unknown }
    }
}

/// The outcome that the status code alone stands for.
pub fn classify_status(status: u16) -> (out: Outcome)
    ensures
        out == classify_spec(status, None, None),
{
    classify_parsed(status, None, None)
}

/// The field `code` of a response body: a whole number, or nothing.
pub open spec fn body_code(body: Seq<u8>) -> Option<u64> {
    match json_number_member(body, "code"@) {
        Some(n) => n.unsigned,
        None => None,
    }
}

/// The field `retry_after` of a response body, a number of seconds, in
/// milliseconds: `retry_after * 1000`, cut off to a whole number.
pub open spec fn body_retry_after_ms(body: Seq<u8>) -> Option<u64> {
    match json_number_member(body, "retry_after"@) {
        Some(n) => read_scaled_spec(encode_utf8(n.text), 3),
        None => None,
    }
}

/// Reads the field `code` of a response body.
pub fn read_code(body: &[u8]) -> (code: Option<u64>)
    ensures
        code == body_code(body@),
{
    match number_member(body, "code") {
        Some(n) => n.unsigned,
        None => None,
    }
}

/// Reads the field `retry_after` of a response body as milliseconds.
pub fn read_retry_after_ms(body: &[u8]) -> (ms: Option<u64>)
    ensures
        ms == body_retry_after_ms(body@),
{
    match number_member(body, "retry_after") {
        Some(n) => read_scaled(n.text.as_str().as_bytes(), 3),
        None => None,
    }
}

/// Classifies one response: the status code decides, and for the three
/// statuses whose body says more, the body refines it. A body that cannot be
/// read, be it no JSON or no text at all, leaves the classification to the
/// status code.
pub fn classify(status: u16, body: &[u8]) -> (out: Outcome)
    ensures
        out == classify_spec(status, body_code(body@), body_retry_after_ms(body@)),
{
    if status == STATUS_FORBIDDEN || status == STATUS_NOT_FOUND {
        classify_parsed(status, read_code(body), None)
    } else if status == STATUS_TOO_MANY_REQUESTS {
        classify_parsed(status, None, read_retry_after_ms(body))
    } else {
        classify_parsed(status, None, None)
    }
}

/// A header value that is no number.
#[derive(Clone, Copy, Debug, PartialEq, Eq, Structural)]
pub struct HeaderError;

/// The bytes of a header, where it is present.
pub open spec fn header_bytes(data: Option<&[u8]>) -> Option<Seq<u8>> {
    match data {
        Some(bytes) => Some(bytes@),
        None => None,
    }
}

/// The number that a rate-limit header states, cut off to a whole number.
/// An absent header counts as `0`. A header may also hold one of the words
/// `nan`, `inf` and `infinity`, which count as [`read_whole_spec`] says. A
/// header that is neither a decimal number nor one of these words is an
/// error.
pub open spec fn parse_header_spec(data: Option<Seq<u8>>) -> Result<u64, HeaderError> {
    match data {
        Some(bytes) => match read_whole_spec(bytes) {
            Some(n) => Ok(n),
            None => Err(HeaderError),
        },
        None => Ok(0),
    }
}

/// The number that a rate-limit header states, with `0` for one that
/// cannot be read.
pub open spec fn header_number(data: Option<Seq<u8>>) -> u64 {
    match parse_header_spec(data) {
        Ok(n) => n,
        Err(_) => 0,
    }
}

/// Reads the number that a rate-limit header states.
pub fn parse_header(data: Option<&[u8]>) -> (r: Result<u64, HeaderError>)
    ensures
        r == parse_header_spec(header_bytes(data)),
{
    match data {
        Some(bytes) => match read_whole(bytes) {
            Some(n) => Ok(n),
            None => Err(HeaderError),
        },
        None => Ok(0),
    }
}

/// Reads the number that a rate-limit header states; a header that cannot
/// be read counts as `0`.
pub fn parse_header_wrap(data: Option<&[u8]>) -> (n: u64)
    ensures
        n == header_number(header_bytes(data)),
{
    match parse_header(data) {
        Ok(n) => n,
        Err(_) => 0,
    }
}

/// A byte that may stand in the text of a header: a visible ASCII character,
/// a blank or a tab.
pub open spec fn is_visible_ascii(b: u8) -> bool {
    32 <= b < 127 || b == 9
}

/// Whether every byte of a header value may stand in text.
pub open spec fn is_header_text(bytes: Seq<u8>) -> bool {
    forall|i: int| 0 <= i < bytes.len() ==> is_visible_ascii(#[trigger] bytes[i])
}

/// The characters that ASCII bytes stand for.
pub open spec fn ascii_text(bytes: Seq<u8>) -> Seq<char> {
    Seq::new(bytes.len(), |i: int| bytes[i] as char)
}

/// The rate-limit bucket that a header names: its text where every byte of
/// it may stand in text, nothing where the header is absent or unreadable.
pub open spec fn bucket_spec(data: Option<Seq<u8>>) -> Option<Seq<char>> {
    match data {
        Some(bytes) => if is_header_text(bytes) {
            Some(ascii_text(bytes))
        } else {
            None
        },
        None => None,
    }
}

/// Whether every byte of a header value may stand in text.
fn header_text(bytes: &[u8]) -> (readable: bool)
    ensures
        readable == is_header_text(bytes@),
{
    let mut i: usize = 0;
    while i < bytes.len()
        invariant
            i <= bytes.len(),
            forall|j: int| 0 <= j < i ==> is_visible_ascii(#[trigger] bytes@[j]),
        decreases bytes.len() - i,
    {
        let b: u8 = bytes[i];
        if !(32 <= b && b < 127 || b == 9) {
            return false;
        }
        i = i + 1;
    }
    true
}

/// Reads the rate-limit bucket that a header names. A header that is
/// absent, or that holds a byte which may not stand in text, names none.
pub fn read_bucket(data: Option<&[u8]>) -> (bucket: Option<String>)
    ensures
        optional_text(bucket) == bucket_spec(header_bytes(data)),
{
    match data {
        Some(bytes) => {
            if header_text(bytes) {
                proof {
                    let chars = ascii_text(bytes@);
                    assert(is_ascii_chars(chars));
                    is_ascii_chars_encode_utf8(chars);
                    assert(encode_utf8(chars) =~= bytes@);
                    encode_utf8_valid_utf8(chars);
                }
                match utf8_text(bytes) {
                    Some(text) => {
                        proof {
                            encode_utf8_decode_utf8(text@);
                            encode_utf8_decode_utf8(ascii_text(bytes@));
                        }
                        Some(text.to_owned())
                    },
                    None => None,
                }
            } else {
                None
            }
        },
        None => None,
    }
}

/// One response of the remote service, as the transport hands it over.
pub struct Response {
    /// The status code.
    pub status: u16,
    /// The value of the header `X-RateLimit-Remaining`, if present.
    pub remaining: Option<Vec<u8>>,
    /// The value of the header `X-RateLimit-Reset`, if present.
    pub reset: Option<Vec<u8>>,
    /// The value of the header `X-RateLimit-Bucket`, if present.
    pub bucket: Option<Vec<u8>>,
    /// The body, as the bytes that came.
    pub body: Vec<u8>,
}

/// The bytes of an owned header value, where it is present.
pub open spec fn owned_header_bytes(data: Option<Vec<u8>>) -> Option<Seq<u8>> {
    match data {
        Some(bytes) => Some(bytes@),
        None => None,
    }
}

/// The characters of an optional text.
pub open spec fn optional_text(data: Option<String>) -> Option<Seq<char>> {
    match data {
        Some(text) => Some(text@),
        None => None,
    }
}

/// What a response came to: the outcome that drives the dispatcher, and the
/// rate-limit figures of the response, which are kept for the record only.
#[derive(Debug, PartialEq, Eq)]
pub struct BroadcastResult {
    /// The outcome of the attempt.
    pub outcome: Outcome,
    /// When the rate limit resets, in seconds since the epoch.
    pub rate_limit_stamp: u64,
    /// How many requests are left in the current window. The header's
    /// number is kept modulo `2^32`.
    pub rate_limit_left: u32,
    /// The rate-limit bucket that the request fell into, where the response
    /// names one in readable text.
    pub rate_limit_bucket: Option<String>,
}

impl BroadcastResult {
    /// Whether `self` is what `response` comes to.
    pub open spec fn is_result_of(self, response: Response) -> bool {
        &&& self.outcome == classify_spec(
            response.status,
            body_code(response.body@),
            body_retry_after_ms(response.body@),
        )
        &&& self.rate_limit_stamp == header_number(owned_header_bytes(response.reset))
        &&& self.rate_limit_left == header_number(owned_header_bytes(response.remaining))
            % 0x1_0000_0000
        &&& optional_text(self.rate_limit_bucket) == bucket_spec(
            owned_header_bytes(response.bucket),
        )
    }
}

/// Classifies a whole response. The headers are read for the record; the
/// outcome depends on the status and the body alone.
pub fn classify_response(response: &Response) -> (r: BroadcastResult)
    ensures
        r.is_result_of(*response),
{
    let outcome: Outcome = classify(response.status, response.body.as_slice());
    let remaining: u64 = match &response.remaining {
        Some(bytes) => parse_header_wrap(Some(bytes.as_slice())),
        None => parse_header_wrap(None),
    };
    let reset: u64 = match &response.reset {
        Some(bytes) => parse_header_wrap(Some(bytes.as_slice())),
        None => parse_header_wrap(None),
    };
    let bucket: Option<String> = match &response.bucket {
        Some(bytes) => read_bucket(Some(bytes.as_slice())),
        None => read_bucket(None),
    };
    assert(remaining as u32 == remaining % 0x1_0000_0000) by (bit_vector);
    BroadcastResult {
        outcome,
        rate_limit_stamp: reset,
        rate_limit_left: remaining as u32,
        rate_limit_bucket: bucket,
    }
}

/// The classifier is a function: the same status, headers and body always
/// come to the same result, and the outcome does not depend on the headers.
pub proof fn theorem_classification_is_a_function(
    first: Response,
    second: Response,
    a: BroadcastResult,
    b: BroadcastResult,
)
    requires
        a.is_result_of(first),
        b.is_result_of(second),
        first.status == second.status,
        first.body@ == second.body@,
    ensures
        a.outcome == b.outcome,
        owned_header_bytes(first.remaining) == owned_header_bytes(second.remaining)
            ==> a.rate_limit_left == b.rate_limit_left,
        owned_header_bytes(first.reset) == owned_header_bytes(second.reset) ==> a.rate_limit_stamp
            == b.rate_limit_stamp,
        owned_header_bytes(first.bucket) == owned_header_bytes(second.bucket) ==> optional_text(
            a.rate_limit_bucket,
        ) == optional_text(b.rate_limit_bucket),
{
}

} // verus!
