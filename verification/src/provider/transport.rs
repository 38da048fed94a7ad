//! Decisions of the OpenRouter transport.
//!
//! The host runs the request process and its private capture files. What an observation of the
//! process means, which captured bytes count as progress, and how a settled process is
//! reported, is decided here.

use crate::text::{
    decode, find, joined, lossy, number_of, number_of_digits, occurs, parse_number, push_number, replace, replaced,
    stands_at, starts_with, text_of, chars_of, trim, trim_end, trim_start, utf8_lossy, digits,
};
use vstd::prelude::*;
use vstd::utf8::{decode_utf8, encode_utf8, valid_utf8};

verus! {

broadcast use crate::model::group_views;

/// Where completions are requested.
pub const COMPLETIONS_URL: &'static str = "https://openrouter.ai/api/v1/chat/completions";

/// Where the accounting of a generation is requested.
pub const GENERATION_URL: &'static str = "https://openrouter.ai/api/v1/generation";

/// Bytes below which a response is not searched for repetition.
pub const REPETITION_CHECK_MIN_BYTES: u64 = 65536;

/// Milliseconds between two searches for repetition.
pub const REPETITION_CHECK_INTERVAL_MS: u64 = 250;

/// Bytes of one of the two windows that have to recur.
pub const REPETITION_WINDOW_BYTES: u64 = 4096;

/// Bytes between the tail and the earliest place where it may recur.
pub const REPETITION_MAX_DISTANCE_BYTES: u64 = 131072;

/// How the report begins when a capture file cannot be created.
pub const CAPTURE_REFUSED: &'static str = "could not create private transport capture";

/// The report when no name is left for a capture file.
pub const CAPTURE_UNNAMED: &'static str =
    "could not allocate a private OpenRouter transport capture";

/// How the report begins when the transport process cannot be started.
pub const NOT_STARTED: &'static str = "could not start the OpenRouter HTTP transport";

/// The report when the transport process takes no request.
pub const NO_REQUEST_PIPE: &'static str = "OpenRouter HTTP transport has no request pipe";

/// The report when the request cannot be written.
pub const NOT_SENT: &'static str = "could not send OpenRouter request";

/// The number of bytes before the first separator.
pub open spec fn part_length(s: Seq<u8>, sep: u8) -> nat
    decreases s.len(),
{
    if s.len() == 0 || s[0] == sep {
        0
    } else {
        1 + part_length(s.skip(1), sep)
    }
}

/// The parts of a sequence of bytes between separators.
pub open spec fn parts_of(s: Seq<u8>, sep: u8) -> Seq<Seq<u8>>
    decreases s.len(),
{
    let n = part_length(s, sep);
    if n >= s.len() {
        seq![s]
    } else {
        seq![s.take(n as int)] + parts_of(s.skip(n as int + 1), sep)
    }
}

proof fn lemma_part_length(s: Seq<u8>, sep: u8, n: int)
    requires
        0 <= n <= s.len(),
        forall|k: int| 0 <= k < n ==> s[k] != sep,
        n == s.len() || s[n] == sep,
    ensures
        part_length(s, sep) == n,
    decreases s.len(),
{
    if n > 0 {
        lemma_part_length(s.skip(1), sep, n - 1);
    }
}

fn bytes_of(bytes: &[u8], from: usize, to: usize) -> (r: Vec<u8>)
    requires
        from <= to <= bytes@.len(),
    ensures
        r@ == bytes@.subrange(from as int, to as int),
{
    let mut out: Vec<u8> = Vec::new();
    let mut i: usize = from;
    while i < to
        invariant
            from <= i <= to <= bytes@.len(),
            out@ == bytes@.subrange(from as int, i as int),
        decreases to - i,
    {
        out.push(bytes[i]);
        i = i + 1;
        assert(out@ =~= bytes@.subrange(from as int, i as int));
    }
    out
}

/// Split bytes at a separator.
pub fn split(bytes: &[u8], sep: u8) -> (r: Vec<Vec<u8>>)
    ensures
        crate::model::views(r@) == parts_of(bytes@, sep),
{
    let mut out: Vec<Vec<u8>> = Vec::new();
    let mut start: usize = 0;
    assert(bytes@.skip(0) =~= bytes@);
    assert(crate::model::views(out@) + parts_of(bytes@, sep) =~= parts_of(bytes@, sep));
    loop
        invariant
            start <= bytes@.len(),
            crate::model::views(out@) + parts_of(bytes@.skip(start as int), sep) == parts_of(
                bytes@,
                sep,
            ),
        decreases bytes@.len() - start,
    {
        let ghost rest = bytes@.skip(start as int);
        let mut end: usize = start;
        while end < bytes.len() && bytes[end] != sep
            invariant
                start <= end <= bytes@.len(),
                rest == bytes@.skip(start as int),
                forall|k: int| 0 <= k < end - start ==> rest[k] != sep,
            decreases bytes.len() - end,
        {
            end = end + 1;
        }
        proof {
            lemma_part_length(rest, sep, end - start);
        }
        let part = bytes_of(bytes, start, end);
        let ghost before = out@;
        out.push(part);
        if end == bytes.len() {
            proof {
                assert(part@ =~= rest);
                assert(crate::model::views(out@) =~= crate::model::views(before) + seq![rest]);
            }
            return out;
        }
        proof {
            assert(part@ =~= rest.take(end - start));
            assert(rest.skip(end - start + 1) =~= bytes@.skip(end + 1));
            assert(crate::model::views(out@) + parts_of(bytes@.skip(end + 1), sep)
                =~= crate::model::views(before) + parts_of(rest, sep));
        }
        start = end + 1;
    }
}

/// The number of bytes before the first blank.
pub open spec fn field_length(s: Seq<u8>) -> nat
    decreases s.len(),
{
    if s.len() == 0 || s[0] == 32 || s[0] == 9 {
        0
    } else {
        1 + field_length(s.skip(1))
    }
}

/// A header line without the carriage return that ends it.
pub open spec fn header_line(s: Seq<u8>) -> Seq<u8> {
    if s.len() > 0 && s.last() == 13 {
        s.drop_last()
    } else {
        s
    }
}

/// The status that a header line reports: its second field, if its first is an HTTP version.
pub open spec fn status_of_line(line: Seq<u8>) -> Option<u16> {
    let fields = header_line(line);
    let n = field_length(fields) as int;
    let rest = fields.skip(n + 1);
    let code = rest.take(field_length(rest) as int);
    if !stands_at(fields.take(n), encode_utf8("HTTP/"@), 0) || n >= fields.len() || !valid_utf8(
        code,
    ) {
        None
    } else {
        match number_of(decode_utf8(code)) {
            Some(number) => if number <= u16::MAX {
                Some(number as u16)
            } else {
                None
            },
            None => None,
        }
    }
}

/// The last status that header lines report.
pub open spec fn last_status(lines: Seq<Seq<u8>>) -> Option<u16>
    decreases lines.len(),
{
    if lines.len() == 0 {
        None
    } else {
        match status_of_line(lines.last()) {
            Some(code) => Some(code),
            None => last_status(lines.drop_last()),
        }
    }
}

proof fn lemma_field_length(s: Seq<u8>, n: int)
    requires
        0 <= n <= s.len(),
        forall|k: int| 0 <= k < n ==> s[k] != 32 && s[k] != 9,
        n == s.len() || s[n] == 32 || s[n] == 9,
    ensures
        field_length(s) == n,
    decreases s.len(),
{
    if n > 0 {
        lemma_field_length(s.skip(1), n - 1);
    }
}

/// The end of the field that begins at an index.
fn field_end(line: &Vec<u8>, from: usize, to: usize) -> (r: usize)
    requires
        from <= to <= line@.len(),
    ensures
        from <= r <= to,
        r - from == field_length(line@.subrange(from as int, to as int)),
{
    let mut end: usize = from;
    let ghost part = line@.subrange(from as int, to as int);
    while end < to && line[end] != 32 && line[end] != 9
        invariant
            from <= end <= to <= line@.len(),
            part == line@.subrange(from as int, to as int),
            forall|k: int| 0 <= k < end - from ==> part[k] != 32 && part[k] != 9,
        decreases to - end,
    {
        end = end + 1;
    }
    proof {
        lemma_field_length(part, end - from);
    }
    end
}

/// Whether bytes stand in others at an index.
fn bytes_at(bytes: &[u8], part: &[u8], at: usize) -> (r: bool)
    requires
        at <= bytes@.len(),
    ensures
        r == stands_at(bytes@, part@, at as int),
{
    let total = bytes.len();
    if part.len() > total - at {
        return false;
    }
    let mut k: usize = 0;
    while k < part.len()
        invariant
            k <= part@.len(),
            total == bytes@.len(),
            at + part@.len() <= total,
            forall|j: int| 0 <= j < k ==> bytes@[at + j] == part@[j],
        decreases part.len() - k,
    {
        if bytes[at + k] != part[k] {
            assert(bytes@.subrange(at as int, at + part@.len())[k as int] != part@[k as int]);
            return false;
        }
        k = k + 1;
    }
    assert(bytes@.subrange(at as int, at + part@.len()) =~= part@);
    true
}

fn line_status(line: &Vec<u8>) -> (r: Option<u16>)
    ensures
        r == status_of_line(line@),
{
    let n = line.len();
    let to = if n > 0 && line[n - 1] == 13 {
        n - 1
    } else {
        n
    };
    let ghost fields = header_line(line@);
    assert(fields =~= line@.subrange(0, to as int));
    let first = field_end(line, 0, to);
    let version = bytes_of(line.as_slice(), 0, first);
    assert(version@ =~= fields.take(first as int));
    if !bytes_at(version.as_slice(), "HTTP/".as_bytes(), 0) || first >= to {
        return None;
    }
    let second = field_end(line, first + 1, to);
    let code = bytes_of(line.as_slice(), first + 1, second);
    proof {
        let rest = fields.skip(first + 1);
        assert(rest =~= line@.subrange(first + 1, to as int));
        assert(code@ =~= rest.take(field_length(rest) as int));
    }
    match decode(code.as_slice()) {
        None => None,
        Some(text) => match parse_number(text, 65535) {
            Some(number) => Some(number as u16),
            None => None,
        },
    }
}

/// The last HTTP status of captured headers.
pub fn http_status_code(headers: &[u8]) -> (r: Option<u16>)
    ensures
        r == last_status(parts_of(headers@, 10)),
{
    let all = split(headers, 10);
    let ghost lines = crate::model::views(all@);
    let mut found: Option<u16> = None;
    let mut i: usize = 0;
    while i < all.len()
        invariant
            i <= all@.len(),
            lines == crate::model::views(all@),
            found == last_status(lines.take(i as int)),
        decreases all.len() - i,
    {
        proof {
            assert(lines.take(i + 1).drop_last() =~= lines.take(i as int));
            assert(lines.take(i + 1).last() == all@[i as int]@);
        }
        if let Some(code) = line_status(&all[i]) {
            found = Some(code);
        }
        i = i + 1;
    }
    assert(lines.take(i as int) =~= lines);
    found
}

/// Whether a byte is ASCII white space.
pub open spec fn is_ascii_blank(b: u8) -> bool {
    b == 32 || b == 9 || b == 10 || b == 12 || b == 13
}

fn ascii_blank(b: u8) -> (r: bool)
    ensures
        r == is_ascii_blank(b),
{
    b == 32 || b == 9 || b == 10 || b == 12 || b == 13
}

/// The first byte of a line that is not white space.
pub open spec fn first_visible(line: Seq<u8>) -> Option<u8>
    decreases line.len(),
{
    if line.len() == 0 {
        None
    } else if is_ascii_blank(line[0]) {
        first_visible(line.skip(1))
    } else {
        Some(line[0])
    }
}

/// Whether a line is more than white space or a heartbeat comment.
pub open spec fn is_progress(line: Seq<u8>) -> bool {
    first_visible(line) matches Some(b) && b != 58
}

/// Whether captured bytes hold a line that makes progress.
pub open spec fn makes_progress(bytes: Seq<u8>) -> bool {
    exists|i: int|
        0 <= i < parts_of(bytes, 10).len() && is_progress(#[trigger] parts_of(bytes, 10)[i])
}

fn line_progress(line: &Vec<u8>) -> (r: bool)
    ensures
        r == is_progress(line@),
{
    let mut i: usize = 0;
    assert(line@.skip(0) =~= line@);
    while i < line.len()
        invariant
            i <= line@.len(),
            first_visible(line@) == first_visible(line@.skip(i as int)),
        decreases line.len() - i,
    {
        if !ascii_blank(line[i]) {
            return line[i] != 58;
        }
        assert(line@.skip(i as int).skip(1) =~= line@.skip(i + 1));
        i = i + 1;
    }
    false
}

/// Whether captured bytes are more than heartbeats.
pub fn response_bytes_meaningful(bytes: &[u8]) -> (r: bool)
    ensures
        r == makes_progress(bytes@),
{
    let all = split(bytes, 10);
    let ghost lines = parts_of(bytes@, 10);
    let mut i: usize = 0;
    while i < all.len()
        invariant
            i <= all@.len(),
            lines == crate::model::views(all@),
            lines == parts_of(bytes@, 10),
            forall|k: int| 0 <= k < i ==> !is_progress(#[trigger] lines[k]),
        decreases all.len() - i,
    {
        assert(lines[i as int] == all@[i as int]@);
        if line_progress(&all[i]) {
            return true;
        }
        i = i + 1;
    }
    false
}

fn holds_bytes(bytes: &[u8], part: &[u8]) -> (r: bool)
    ensures
        r == occurs(bytes@, part@),
{
    let mut i: usize = 0;
    loop
        invariant
            i <= bytes@.len(),
            forall|j: int| 0 <= j < i ==> !stands_at(bytes@, part@, j),
        decreases bytes@.len() - i,
    {
        if bytes_at(bytes, part, i) {
            assert(stands_at(bytes@, part@, i as int));
            return true;
        }
        if i == bytes.len() {
            assert forall|j: int| !stands_at(bytes@, part@, j) by {}
            return false;
        }
        i = i + 1;
    }
}

/// Whether a response announces tool calls or its end.
pub open spec fn is_marked(bytes: Seq<u8>) -> bool {
    occurs(bytes, encode_utf8("tool_calls"@)) || occurs(
        bytes,
        encode_utf8("finish_reason\":\"stop"@),
    ) || occurs(bytes, encode_utf8("finish_reason\":\"length"@))
}

/// Whether the last two windows of a response stand in it a second time, at least one window
/// and at most the greatest distance before.
pub open spec fn tail_recurs(bytes: Seq<u8>) -> bool {
    let tail = bytes.len() - 2 * REPETITION_WINDOW_BYTES;
    exists|p: int|
        {
            &&& 0 <= p
            &&& tail - REPETITION_MAX_DISTANCE_BYTES <= p <= tail - REPETITION_WINDOW_BYTES
            &&& #[trigger] stands_at(bytes, bytes.skip(tail), p)
        }
}

/// Detect a response that repeats the same prose span instead of making progress.
///
/// This does not reject long or tool-less prose. It requires two adjacent windows to recur at
/// the same distance, and ignores responses that hold a tool call or a terminal marker.
pub fn response_bytes_repetition_stall(bytes: &[u8]) -> (r: bool)
    ensures
        r == (bytes@.len() >= REPETITION_CHECK_MIN_BYTES && !is_marked(bytes@) && tail_recurs(
            bytes@,
        )),
{
    if bytes.len() < 65536 || holds_bytes(bytes, "tool_calls".as_bytes()) || holds_bytes(
        bytes,
        "finish_reason\":\"stop".as_bytes(),
    ) || holds_bytes(bytes, "finish_reason\":\"length".as_bytes()) {
        return false;
    }
    let tail_start = bytes.len() - 8192;
    let search_start = if tail_start > 131072 {
        tail_start - 131072
    } else {
        0
    };
    let tail = bytes_of(bytes, tail_start, bytes.len());
    assert(tail@ =~= bytes@.skip(tail_start as int));
    let mut p: usize = search_start;
    while p <= tail_start - 4096
        invariant
            tail_start == bytes@.len() - 8192,
            tail_start >= 57344,
            search_start == if tail_start > 131072 {
                tail_start - 131072
            } else {
                0
            },
            search_start <= p <= tail_start - 4095,
            tail@ == bytes@.skip(tail_start as int),
            bytes@.len() >= REPETITION_CHECK_MIN_BYTES,
            !is_marked(bytes@),
            forall|q: int| search_start <= q < p ==> !stands_at(bytes@, tail@, q),
        decreases tail_start - p,
    {
        if bytes_at(bytes, tail.as_slice(), p) {
            proof {
                let tail_at = bytes@.len() - 2 * REPETITION_WINDOW_BYTES;
                assert(tail_at == tail_start);
                assert(stands_at(bytes@, bytes@.skip(tail_at), p as int));
            }
            return true;
        }
        p = p + 1;
    }
    false
}

/// The byte count of a stall report.
pub open spec fn stalled_bytes(message: Seq<char>) -> Option<nat> {
    let prefix = "OpenRouter HTTP transport stalled after "@;
    let rest = message.skip(prefix.len() as int);
    let marker = " response bytes"@;
    if stands_at(message, prefix, 0) && occurs(rest, marker) {
        let at = choose|i: int|
            stands_at(rest, marker, i) && forall|j: int| 0 <= j < i ==> !stands_at(rest, marker, j);
        number_of(rest.take(at))
    } else {
        None
    }
}

/// Whether a failure report tells of a transport that had no response bytes yet.
pub open spec fn precedes_response(message: Seq<char>) -> bool {
    occurs(message, "before a provider response"@) || stalled_bytes(message) == Some(0nat)
}

/// Whether a transport failure came before the provider emitted response bytes. Only such a
/// failure may be retried: replaying a request after body bytes can charge the provider twice.
pub fn retryable_transport_error(message: &str) -> (r: bool)
    ensures
        r == precedes_response(message@),
{
    if find(message, "before a provider response").is_some() {
        return true;
    }
    let prefix = "OpenRouter HTTP transport stalled after ";
    if !starts_with(message, prefix) {
        return false;
    }
    let chars = chars_of(message);
    let start = chars_of(prefix).len();
    let rest = text_of(&chars, start, chars.len());
    assert(rest@ =~= message@.skip(prefix@.len() as int));
    match find(rest.as_str(), " response bytes") {
        None => false,
        Some(at) => {
            let count = text_of(&chars_of(rest.as_str()), 0, at);
            proof {
                let marker = " response bytes"@;
                assert(stands_at(rest@, marker, at as int));
                let chosen = choose|i: int|
                    stands_at(rest@, marker, i) && forall|j: int|
                        0 <= j < i ==> !stands_at(rest@, marker, j);
                assert(chosen == at);
                assert(count@ =~= rest@.take(at as int));
            }
            match parse_number(count.as_str(), 0) {
                Some(_) => true,
                None => false,
            }
        },
    }
}

/// Whether a failure report tells of a request that was not sent.
pub open spec fn never_sent(message: Seq<char>) -> bool {
    ||| stands_at(message, CAPTURE_REFUSED@, 0)
    ||| stands_at(message, CAPTURE_UNNAMED@, 0)
    ||| stands_at(message, NOT_STARTED@, 0)
    ||| stands_at(message, NO_REQUEST_PIPE@, 0)
    ||| stands_at(message, NOT_SENT@, 0)
}

/// Whether a failed attempt may be repeated: the provider cannot have begun to respond.
pub open spec fn repeatable(message: Seq<char>) -> bool {
    never_sent(message) || precedes_response(message)
}

/// Whether a failed attempt may be repeated: its request was not sent, or the transport failed
/// before the provider emitted response bytes.
pub fn attempt_repeatable(message: &str) -> (r: bool)
    ensures
        r == repeatable(message@),
{
    starts_with(message, CAPTURE_REFUSED) || starts_with(message, CAPTURE_UNNAMED) || starts_with(
        message,
        NOT_STARTED,
    ) || starts_with(message, NO_REQUEST_PIPE) || starts_with(message, NOT_SENT)
        || retryable_transport_error(message)
}

/// A key as it stands between quotation marks in a transport configuration.
pub open spec fn escaped(key: Seq<char>) -> Seq<char> {
    replaced(replaced(key, "\\"@, "\\\\"@), "\""@, "\\\""@)
}

/// The private transport configuration that carries a key.
///
/// A key with a line break cannot stand in it.
pub fn curl_config(api_key: &str) -> (r: Option<String>)
    ensures
        r is None <==> api_key@.contains('\n') || api_key@.contains('\r'),
        r matches Some(text) ==> text@ == "header = \"Authorization: Bearer "@ + escaped(api_key@)
            + "\"\nheader = \"Content-Type: application/json\"\n"@,
{
    let chars = chars_of(api_key);
    let mut i: usize = 0;
    while i < chars.len()
        invariant
            i <= chars@.len(),
            chars@ == api_key@,
            forall|k: int| 0 <= k < i ==> chars@[k] != '\n' && chars@[k] != '\r',
        decreases chars.len() - i,
    {
        if chars[i] == '\n' || chars[i] == '\r' {
            assert(api_key@.contains(chars@[i as int]));
            return None;
        }
        i = i + 1;
    }
    let slashes = replace(api_key, "\\", "\\\\");
    let quotes = replace(slashes.as_str(), "\"", "\\\"");
    let mut text = joined("header = \"Authorization: Bearer ", quotes.as_str());
    text.push_str("\"\nheader = \"Content-Type: application/json\"\n");
    Some(text)
}

/// What the transport delivered.
#[derive(Clone, Debug, Eq, PartialEq)]
pub struct TransportResponse {
    /// Response body.
    pub body: Vec<u8>,
    /// Last HTTP status of the response headers.
    pub status_code: Option<u16>,
    /// Whether the body may have been cut off.
    pub partial: bool,
}

/// Why the host stopped watching a process.
#[derive(Clone, Copy, Debug, Eq, PartialEq, Structural)]
pub enum TransportEnd {
    /// The process ended.
    Exited { success: bool },
    /// The host was asked to cancel.
    Cancelled,
    /// Nothing meaningful arrived for too long, after this many bytes.
    Stalled { bytes: u64 },
    /// The response repeated itself.
    Repetitive,
}

/// Whether a body holds more than white space.
pub open spec fn has_content(body: Seq<u8>) -> bool {
    exists|i: int| 0 <= i < body.len() && !is_ascii_blank(#[trigger] body[i])
}

fn content(body: &Vec<u8>) -> (r: bool)
    ensures
        r == has_content(body@),
{
    let mut i: usize = 0;
    while i < body.len()
        invariant
            i <= body@.len(),
            forall|k: int| 0 <= k < i ==> is_ascii_blank(#[trigger] body@[k]),
        decreases body.len() - i,
    {
        if !ascii_blank(body[i]) {
            assert(!is_ascii_blank(body@[i as int]));
            return true;
        }
        i = i + 1;
    }
    false
}

/// How a failed process is reported.
pub open spec fn failure_text(body: Seq<u8>, detail: Seq<char>) -> Seq<char> {
    let head = if has_content(body) {
        "OpenRouter HTTP transport failed after "@ + digits(body.len()) + " response bytes"@
    } else {
        "OpenRouter HTTP transport failed before a provider response"@
    };
    if detail.len() == 0 {
        head
    } else {
        head + ": "@ + detail
    }
}

/// What a settled process means: a response, which may be partial, or a failure.
pub open spec fn settled(
    end: TransportEnd,
    body: Seq<u8>,
    errors: Seq<u8>,
    headers: Seq<u8>,
) -> Result<(Option<u16>, bool), Seq<char>> {
    let status = last_status(parts_of(headers, 10));
    match end {
        TransportEnd::Cancelled => Err("OpenRouter HTTP transport cancelled"@),
        TransportEnd::Repetitive => Err(
            "OpenRouter HTTP transport stopped after repetitive prose"@,
        ),
        TransportEnd::Stalled { bytes } => if bytes > 0 && has_content(body) {
            Ok((status, true))
        } else {
            Err(
                "OpenRouter HTTP transport stalled after "@ + digits(bytes as nat)
                    + " response bytes without meaningful progress"@,
            )
        },
        TransportEnd::Exited { success } => if success {
            Ok((status, false))
        } else if has_content(body) && status is None {
            Ok((status, true))
        } else {
            Err(failure_text(body, trim_end(trim_start(utf8_lossy(errors)))))
        },
    }
}

/// Report a settled process from what was captured of it.
pub fn settle_transport(
    end: TransportEnd,
    body: Vec<u8>,
    errors: &[u8],
    headers: &[u8],
) -> (r: Result<TransportResponse, String>)
    ensures
        match r {
            Ok(response) => settled(end, body@, errors@, headers@) == Ok::<_, Seq<char>>(
                (response.status_code, response.partial),
            ) && response.body@ == body@,
            Err(error) => settled(end, body@, errors@, headers@) == Err::<
                (Option<u16>, bool),
                Seq<char>,
            >(error@),
        },
{
    let status_code = http_status_code(headers);
    match end {
        TransportEnd::Cancelled => Err("OpenRouter HTTP transport cancelled".to_owned()),
        TransportEnd::Repetitive => Err(
            "OpenRouter HTTP transport stopped after repetitive prose".to_owned(),
        ),
        TransportEnd::Stalled { bytes } => {
            if bytes > 0 && content(&body) {
                return Ok(TransportResponse { body, status_code, partial: true });
            }
            let mut text = "OpenRouter HTTP transport stalled after ".to_owned();
            push_number(&mut text, bytes);
            text.push_str(" response bytes without meaningful progress");
            Err(text)
        },
        TransportEnd::Exited { success } => {
            if success {
                return Ok(TransportResponse { body, status_code, partial: false });
            }
            let received = content(&body);
            if received && status_code.is_none() {
                return Ok(TransportResponse { body, status_code, partial: true });
            }
            let mut text;
            if received {
                text = "OpenRouter HTTP transport failed after ".to_owned();
                push_number(&mut text, body.len() as u64);
                text.push_str(" response bytes");
            } else {
                text = "OpenRouter HTTP transport failed before a provider response".to_owned();
            }
            let detail = trim(lossy(errors).as_str());
            if !detail.as_str().is_empty() {
                text.push_str(": ");
                text.push_str(detail.as_str());
            }
            Err(text)
        },
    }
}

/// What the host does next with a running process.
#[derive(Clone, Copy, Debug, Eq, PartialEq, Structural)]
pub enum WatchAction {
    /// Look again after a short sleep.
    Sleep,
    /// Search the captured body for repetition, and report the finding.
    CheckRepetition,
    /// Kill and reap the process, unless it ended by itself, and settle.
    End(TransportEnd),
}

/// What the host observed of a running process. Times are milliseconds of one monotonic clock.
#[derive(Clone, Copy, Debug, Eq, PartialEq, Structural)]
pub struct Observation {
    /// When it was observed.
    pub now: u64,
    /// Whether the process ended, and whether it succeeded.
    pub exited: Option<bool>,
    /// Whether cancellation was requested.
    pub cancelled: bool,
    /// Bytes captured since the last observation.
    pub read: u64,
    /// Whether those bytes make progress.
    pub meaningful: bool,
}

/// Watch over one running process.
#[derive(Clone, Copy, Debug, Eq, PartialEq, Structural)]
pub struct TransportWatch {
    /// Bytes captured so far.
    pub observed: u64,
    /// When meaningful bytes last arrived.
    pub last_progress: u64,
    /// When the body was last searched for repetition.
    pub last_check: u64,
    /// Milliseconds without progress after which the process is stalled.
    pub stall_timeout: u64,
}

/// Milliseconds since an earlier time.
pub open spec fn since(now: u64, then: u64) -> u64 {
    if now < then {
        0
    } else {
        (now - then) as u64
    }
}

fn elapsed(now: u64, then: u64) -> (r: u64)
    ensures
        r == since(now, then),
{
    if now < then {
        0
    } else {
        now - then
    }
}

impl TransportWatch {
    /// A watch over a process that was just started.
    pub fn started(now: u64, stall_timeout: u64) -> (r: Self)
        ensures
            r == (TransportWatch {
                observed: 0,
                last_progress: now,
                last_check: now,
                stall_timeout,
            }),
    {
        TransportWatch { observed: 0, last_progress: now, last_check: now, stall_timeout }
    }

    /// The watch after bytes were captured.
    pub open spec fn after_read(self, seen: Observation) -> TransportWatch {
        TransportWatch {
            observed: crate::state::saturating_sum(self.observed, seen.read),
            last_progress: if seen.meaningful {
                seen.now
            } else {
                self.last_progress
            },
            ..self
        }
    }

    /// Whether it is time to search the body for repetition.
    pub open spec fn check_is_due(self, now: u64) -> bool {
        self.observed >= REPETITION_CHECK_MIN_BYTES && since(now, self.last_check)
            >= REPETITION_CHECK_INTERVAL_MS
    }

    /// What a quiet process means.
    pub open spec fn rest(self, now: u64) -> WatchAction {
        if since(now, self.last_progress) >= self.stall_timeout {
            WatchAction::End(TransportEnd::Stalled { bytes: self.observed })
        } else {
            WatchAction::Sleep
        }
    }

    /// Take one observation. The end of the process comes first, then cancellation, then
    /// repetition, then a stall.
    pub fn observe(&mut self, seen: Observation) -> (r: WatchAction)
        ensures
            match seen.exited {
                Some(success) => r == WatchAction::End(TransportEnd::Exited { success })
                    && *final(self) == *old(self),
                None => if seen.cancelled {
                    r == WatchAction::End(TransportEnd::Cancelled) && *final(self) == *old(self)
                } else {
                    let after = old(self).after_read(seen);
                    if after.check_is_due(seen.now) {
                        r == WatchAction::CheckRepetition && *final(self) == (TransportWatch {
                            last_check: seen.now,
                            ..after
                        })
                    } else {
                        r == after.rest(seen.now) && *final(self) == after
                    }
                },
            },
    {
        if let Some(success) = seen.exited {
            return WatchAction::End(TransportEnd::Exited { success });
        }
        if seen.cancelled {
            return WatchAction::End(TransportEnd::Cancelled);
        }
        self.observed = self.observed.saturating_add(seen.read);
        if seen.meaningful {
            self.last_progress = seen.now;
        }
        if self.observed >= REPETITION_CHECK_MIN_BYTES && elapsed(seen.now, self.last_check)
            >= REPETITION_CHECK_INTERVAL_MS {
            self.last_check = seen.now;
            return WatchAction::CheckRepetition;
        }
        self.quiet(seen.now)
    }

    /// Take the finding of a search for repetition.
    pub fn checked(&self, repetitive: bool, now: u64) -> (r: WatchAction)
        ensures
            r == if repetitive {
                WatchAction::End(TransportEnd::Repetitive)
            } else {
                self.rest(now)
            },
    {
        if repetitive {
            WatchAction::End(TransportEnd::Repetitive)
        } else {
            self.quiet(now)
        }
    }

    fn quiet(&self, now: u64) -> (r: WatchAction)
        ensures
            r == self.rest(now),
    {
        if elapsed(now, self.last_progress) >= self.stall_timeout {
            WatchAction::End(TransportEnd::Stalled { bytes: self.observed })
        } else {
            WatchAction::Sleep
        }
    }
}

/// Content that arrived is kept: a process that stalls after it, or fails without a status, is
/// reported as a partial response and not as a failure, which could be retried.
pub proof fn law_content_is_kept(
    end: TransportEnd,
    body: Seq<u8>,
    errors: Seq<u8>,
    headers: Seq<u8>,
)
    requires
        has_content(body),
    ensures
        end is Stalled && end->bytes > 0 ==> settled(end, body, errors, headers) is Ok,
        end matches TransportEnd::Exited { success } && !success && last_status(
            parts_of(headers, 10),
        ) is None ==> settled(end, body, errors, headers) is Ok,
{
}

proof fn lemma_digits_are_digits(m: nat)
    ensures
        digits(m).len() > 0,
        forall|i: int| 0 <= i < digits(m).len() ==> '0' <= #[trigger] digits(m)[i] <= '9',
    decreases m,
{
    if m >= 10 {
        lemma_digits_are_digits(m / 10);
    }
}

proof fn lemma_begins(message: Seq<char>, part: Seq<char>, k: int)
    requires
        0 <= k < part.len(),
    ensures
        stands_at(message, part, 0) ==> message[k] == part[k],
{
    if stands_at(message, part, 0) {
        assert(message[k] == message.subrange(0, part.len() as int)[k]);
    }
}

/// A report that begins with the name of the transport, and does not go on to say that it takes
/// no request, tells of a request that was sent.
proof fn lemma_sent(message: Seq<char>)
    requires
        message.len() > 26,
        message[0] == 'O',
        message[26] != 'h',
    ensures
        !never_sent(message),
{
    reveal_strlit("could not create private transport capture");
    reveal_strlit("could not allocate a private OpenRouter transport capture");
    reveal_strlit("could not start the OpenRouter HTTP transport");
    reveal_strlit("OpenRouter HTTP transport has no request pipe");
    reveal_strlit("could not send OpenRouter request");
    lemma_begins(message, CAPTURE_REFUSED@, 0);
    lemma_begins(message, CAPTURE_UNNAMED@, 0);
    lemma_begins(message, NOT_STARTED@, 0);
    lemma_begins(message, NO_REQUEST_PIPE@, 26);
    lemma_begins(message, NOT_SENT@, 0);
}

/// A request is not replayed once the provider has begun to respond: whatever ended a transport
/// that delivered content, its failure may not be retried. Left out are a stall that was counted
/// before the first byte, and a process that reports, in the very words, that it had no response.
pub proof fn law_no_replay_after_content(
    end: TransportEnd,
    body: Seq<u8>,
    errors: Seq<u8>,
    headers: Seq<u8>,
)
    requires
        settled(end, body, errors, headers) is Err,
        has_content(body),
        end != (TransportEnd::Stalled { bytes: 0 }),
        !occurs(trim_end(trim_start(utf8_lossy(errors))), "before a provider response"@),
    ensures
        !repeatable(settled(end, body, errors, headers)->Err_0),
{
    let message = settled(end, body, errors, headers)->Err_0;
    let phrase = "before a provider response"@;
    let prefix = "OpenRouter HTTP transport stalled after "@;
    reveal_strlit("before a provider response");
    reveal_strlit("OpenRouter HTTP transport stalled after ");
    reveal_strlit("OpenRouter HTTP transport cancelled");
    reveal_strlit("OpenRouter HTTP transport stopped after repetitive prose");
    reveal_strlit("OpenRouter HTTP transport failed after ");
    reveal_strlit(" response bytes");
    reveal_strlit(": ");
    assert(phrase[0] == 'b' && phrase[1] == 'e');
    lemma_sent(message);
    if stands_at(message, prefix, 0) {
        assert(message[26] == message.subrange(0, prefix.len() as int)[26]);
        assert(message[28] == message.subrange(0, prefix.len() as int)[28]);
        assert(false);
    }
    if occurs(message, phrase) {
        let i = choose|i: int| stands_at(message, phrase, i);
        assert(message[i] == message.subrange(i, i + phrase.len())[0]);
        assert(message[i + 1] == message.subrange(i, i + phrase.len())[1]);
        if end is Exited {
            let detail = trim_end(trim_start(utf8_lossy(errors)));
            let count = digits(body.len());
            lemma_digits_are_digits(body.len());
            let start = "OpenRouter HTTP transport failed after "@;
            let rest = " response bytes"@;
            let head = start + count + rest;
            if i < start.len() {
                assert(message[i] == start[i]);
            } else if i < start.len() + count.len() {
                assert(message[i] == count[i - start.len()]);
            } else if i < head.len() {
                assert(message[i] == rest[i - start.len() - count.len()]);
                assert(i == head.len() - 5);
                assert(message[i + 1] == rest[11]);
            } else if i < head.len() + 2 {
                assert(message[i] == ": "@[i - head.len()]);
            } else {
                let at = i - head.len() - 2;
                assert(detail.subrange(at, at + phrase.len()) =~= message.subrange(
                    i,
                    i + phrase.len(),
                ));
                assert(stands_at(detail, phrase, at));
            }
        }
    }
}

/// A connection that died before any content may be retried: a failed process without content,
/// and a stall without a byte.
pub proof fn law_dead_connections_may_be_retried(
    end: TransportEnd,
    body: Seq<u8>,
    errors: Seq<u8>,
    headers: Seq<u8>,
)
    requires
        !has_content(body),
        end == (TransportEnd::Exited { success: false }) || end == (TransportEnd::Stalled {
            bytes: 0,
        }),
    ensures
        settled(end, body, errors, headers) is Err,
        repeatable(settled(end, body, errors, headers)->Err_0),
{
    let message = settled(end, body, errors, headers)->Err_0;
    let phrase = "before a provider response"@;
    reveal_strlit("before a provider response");
    if end is Exited {
        reveal_strlit("OpenRouter HTTP transport failed before a provider response");
        assert(message.subrange(33, 33int + phrase.len()) =~= phrase);
        assert(stands_at(message, phrase, 33));
    } else {
        let prefix = "OpenRouter HTTP transport stalled after "@;
        let marker = " response bytes"@;
        let tail = " response bytes without meaningful progress"@;
        reveal_strlit("OpenRouter HTTP transport stalled after ");
        reveal_strlit(" response bytes");
        reveal_strlit(" response bytes without meaningful progress");
        assert(digits(0) =~= seq!['0']);
        assert(message =~= prefix + seq!['0'] + tail);
        assert(message.subrange(0, prefix.len() as int) =~= prefix);
        let rest = message.skip(prefix.len() as int);
        assert(rest =~= seq!['0'] + tail);
        assert(rest.subrange(1, 1int + marker.len()) =~= marker);
        assert(stands_at(rest, marker, 1));
        assert(!stands_at(rest, marker, 0)) by {
            if stands_at(rest, marker, 0) {
                assert(rest[0] == rest.subrange(0, marker.len() as int)[0]);
            }
        }
        let at = choose|i: int|
            stands_at(rest, marker, i) && forall|j: int| 0 <= j < i ==> !stands_at(rest, marker, j);
        assert(at == 1);
        assert(rest.take(1) =~= seq!['0']);
        assert(seq!['0'].drop_last() =~= Seq::<char>::empty());
        assert(number_of_digits(seq!['0']) == Some(0nat)) by {
            reveal_with_fuel(number_of_digits, 3);
        }
    }
}

} // verus!
