//! The exchange with a route's listener: what is asked over HTTP and over TCP, and which
//! replies are taken.
use vstd::prelude::*;

use crate::procfs::{text_in, text_of_bytes};
use crate::scan::{
    bytes_after,
    bytes_before,
    cut_first,
    decimal,
    decimal_number,
    decimal_of,
    parse_decimal,
    split_once,
    trim,
    trimmed,
};
use crate::text::{
    cat2, cat5, chars_of, check, either, part_of, push_text, refuse, same_text, texts, unless,
    Refusal,
};

verus! {

/// How much of a reply is read at most.
pub const ROUTE_SNAPSHOT_MAX_BYTES: usize = 1_048_576;

/// How much of a reply may be its headers.
pub const ROUTE_HTTP_MAX_HEADER_BYTES: usize = 32_768;

/// The number that four bytes are, the highest first.
pub open spec fn big_endian(b: Seq<u8>) -> int {
    b[0] * 16_777_216 + b[1] * 65_536 + b[2] * 256 + b[3]
}

/// The length that a TCP reply announces, which is bounded.
pub fn tcp_reply_length(header: [u8; 4]) -> (outcome: Result<usize, Refusal>)
    ensures
        crate::procfs::comes_to(
            outcome,
            if 1 <= big_endian(header@) <= ROUTE_SNAPSHOT_MAX_BYTES {
                Ok(big_endian(header@) as usize)
            } else {
                Err("stable CultNet TCP response exceeds the route observation bound"@)
            },
        ),
{
    let length: u64 = header[0] as u64 * 16_777_216 + header[1] as u64 * 65_536 + header[2] as u64
        * 256 + header[3] as u64;
    if 1 <= length && length <= ROUTE_SNAPSHOT_MAX_BYTES as u64 {
        Ok(length as usize)
    } else {
        Err(refuse("stable CultNet TCP response exceeds the route observation bound"))
    }
}

/// The head of the request that is posted to a listener.
pub open spec fn http_head(target: Seq<char>, length: nat) -> Seq<char> {
    "POST /cultnet/snapshot HTTP/1.1\r\nHost: "@ + target
        + "\r\nContent-Type: application/msgpack\r\nAccept: application/msgpack\r\nContent-Length: "@
        + decimal(length) + "\r\nConnection: close\r\n\r\n"@
}

/// The head of the request that is posted to a listener.
pub fn http_request_head(target: &str, payload_length: usize) -> (head: String)
    ensures
        head@ == http_head(target@, payload_length as nat),
{
    let length = decimal_of(payload_length as u64);
    cat5(
        "POST /cultnet/snapshot HTTP/1.1\r\nHost: ",
        target,
        "\r\nContent-Type: application/msgpack\r\nAccept: application/msgpack\r\nContent-Length: ",
        length.as_str(),
        "\r\nConnection: close\r\n\r\n",
    )
}

/// Whether an empty line ends at a place.
pub open spec fn blank_line_at(bytes: Seq<u8>, i: int) -> bool {
    &&& 0 <= i
    &&& i + 4 <= bytes.len()
    &&& bytes[i] == 13
    &&& bytes[i + 1] == 10
    &&& bytes[i + 2] == 13
    &&& bytes[i + 3] == 10
}

/// Whether the headers of a reply end at a place: behind its first empty line.
pub open spec fn headers_end(bytes: Seq<u8>, end: int) -> bool {
    &&& blank_line_at(bytes, end - 4)
    &&& forall|i: int| 0 <= i < end - 4 ==> !#[trigger] blank_line_at(bytes, i)
}

/// Where the headers of a reply end, if they do.
pub open spec fn header_end(bytes: Seq<u8>) -> Option<int> {
    if exists|end: int| headers_end(bytes, end) {
        Some(choose|end: int| headers_end(bytes, end))
    } else {
        None
    }
}

proof fn lemma_header_end(bytes: Seq<u8>, end: int)
    requires
        headers_end(bytes, end),
    ensures
        header_end(bytes) == Some(end),
{
    let other = choose|e: int| headers_end(bytes, e);
    assert(headers_end(bytes, other));
    if other < end {
        assert(!blank_line_at(bytes, other - 4));
    } else if end < other {
        assert(!blank_line_at(bytes, end - 4));
    }
}

fn find_header_end(bytes: &[u8]) -> (end: Option<usize>)
    ensures
        match (end, header_end(bytes@)) {
            (Some(e), Some(owed)) => e == owed && 4 <= e <= bytes@.len(),
            (None, None) => true,
            _ => false,
        },
{
    let n: usize = bytes.len();
    if n < 4 {
        proof {
            if header_end(bytes@) is Some {
                let e = choose|e: int| headers_end(bytes@, e);
                assert(blank_line_at(bytes@, e - 4));
            }
        }
        return None;
    }
    let mut i: usize = 0;
    while i <= n - 4
        invariant
            n == bytes@.len(),
            n >= 4,
            i <= n - 3,
            forall|j: int| 0 <= j < i ==> !#[trigger] blank_line_at(bytes@, j),
        decreases n - i,
    {
        if bytes[i] == 13 && bytes[i + 1] == 10 && bytes[i + 2] == 13 && bytes[i + 3] == 10 {
            proof {
                assert(blank_line_at(bytes@, i as int));
                assert(headers_end(bytes@, i + 4));
                lemma_header_end(bytes@, i + 4);
            }
            return Some(i + 4);
        }
        i += 1;
    }
    proof {
        if header_end(bytes@) is Some {
            let e = choose|e: int| headers_end(bytes@, e);
            assert(blank_line_at(bytes@, e - 4));
            assert(0 <= e - 4 < i);
        }
    }
    None
}

/// Whether a line of a header ends at a place.
pub open spec fn line_end_at(s: Seq<char>, i: int) -> bool {
    0 <= i && i + 1 < s.len() && s[i] == '\r' && s[i + 1] == '\n'
}

/// The lines of a header from a place on, the first of which began earlier.
pub open spec fn header_lines(s: Seq<char>, from: int, at: int) -> Seq<Seq<char>>
    decreases s.len() - at,
{
    if at >= s.len() {
        seq![s.subrange(from, s.len() as int)]
    } else if line_end_at(s, at) {
        seq![s.subrange(from, at)] + header_lines(s, at + 2, at + 2)
    } else {
        header_lines(s, from, at + 1)
    }
}

fn split_header(s: &str) -> (found: Vec<String>)
    ensures
        texts(found@) == header_lines(s@, 0, 0),
{
    let chars = chars_of(s);
    let n: usize = chars.len();
    let mut found: Vec<String> = Vec::new();
    let mut from: usize = 0;
    let mut at: usize = 0;
    assert(texts(found@) + header_lines(s@, 0, 0) =~= header_lines(s@, 0, 0));
    while at < n
        invariant
            from <= at <= n,
            n == chars@.len(),
            chars@ == s@,
            texts(found@) + header_lines(s@, from as int, at as int) == header_lines(s@, 0, 0),
        decreases n - at,
    {
        if at + 1 < n && chars[at] == '\r' && chars[at + 1] == '\n' {
            let ghost before = texts(found@);
            let line = part_of(chars.as_slice(), from, at);
            let ghost text = line@;
            push_text(&mut found, line);
            proof {
                let rest = header_lines(s@, at + 2, at + 2);
                assert(text == s@.subrange(from as int, at as int));
                assert(before + (seq![text] + rest) =~= before.push(text) + rest);
            }
            at += 2;
            from = at;
        } else {
            at += 1;
        }
    }
    let ghost before = texts(found@);
    let line = part_of(chars.as_slice(), from, n);
    push_text(&mut found, line);
    assert(texts(found@) =~= before + header_lines(s@, from as int, at as int));
    found
}

/// A letter in its lower case, as far as ASCII goes.
pub open spec fn lower_letter(c: char) -> char {
    if 'A' <= c && c <= 'Z' {
        ((c as int) + 32) as char
    } else {
        c
    }
}

/// A text in its lower case, as far as ASCII goes.
pub open spec fn lowered(s: Seq<char>) -> Seq<char> {
    Seq::new(s.len(), |i: int| lower_letter(s[i]))
}

fn to_lower_letter(c: char) -> (lower: char)
    ensures
        lower == lower_letter(c),
{
    match c {
        'A' => 'a',
        'B' => 'b',
        'C' => 'c',
        'D' => 'd',
        'E' => 'e',
        'F' => 'f',
        'G' => 'g',
        'H' => 'h',
        'I' => 'i',
        'J' => 'j',
        'K' => 'k',
        'L' => 'l',
        'M' => 'm',
        'N' => 'n',
        'O' => 'o',
        'P' => 'p',
        'Q' => 'q',
        'R' => 'r',
        'S' => 's',
        'T' => 't',
        'U' => 'u',
        'V' => 'v',
        'W' => 'w',
        'X' => 'x',
        'Y' => 'y',
        'Z' => 'z',
        other => other,
    }
}

/// Whether a text is a name, whatever the case of its letters. The name has none in
/// upper case.
fn is_name(s: &str, name: &str) -> (is: bool)
    ensures
        is == (lowered(s@) == name@),
{
    let a = chars_of(s);
    let b = chars_of(name);
    if a.len() != b.len() {
        return false;
    }
    let mut i: usize = 0;
    while i < a.len()
        invariant
            i <= a@.len(),
            a@ == s@,
            b@ == name@,
            a@.len() == b@.len(),
            forall|j: int| 0 <= j < i ==> lowered(s@)[j] == #[trigger] name@[j],
        decreases a@.len() - i,
    {
        if to_lower_letter(a[i]) != b[i] {
            assert(lowered(s@)[i as int] != name@[i as int]);
            return false;
        }
        i += 1;
    }
    assert(lowered(s@) =~= name@);
    true
}

/// The body length that header lines announce, if one does, or why they are refused.
pub open spec fn announced(rows: Seq<Seq<char>>) -> Result<Option<usize>, Seq<char>>
    decreases rows.len(),
{
    if rows.len() == 0 {
        Ok(None)
    } else {
        let row = rows.last();
        match announced(rows.drop_last()) {
            Err(w) => Err(w),
            Ok(earlier) => if row.len() == 0 {
                Ok(earlier)
            } else {
                match cut_first(row, ':') {
                    None => Err("stable CultNet HTTP response contains a malformed header"@),
                    Some((name, value)) => if lowered(name) == "transfer-encoding"@ {
                        Err("stable CultNet HTTP response uses unsupported transfer encoding"@)
                    } else if lowered(name) != "content-length"@ {
                        Ok(earlier)
                    } else if earlier is Some {
                        Err("stable CultNet HTTP response repeats Content-Length"@)
                    } else {
                        match decimal_number(trimmed(value), usize::MAX as int) {
                            None => Err("stable CultNet HTTP Content-Length is invalid"@),
                            Some(n) => Ok(Some(n as usize)),
                        }
                    },
                }
            },
        }
    }
}

proof fn lemma_announced_fails(rows: Seq<Seq<char>>, n: int)
    requires
        0 <= n <= rows.len(),
        announced(rows.take(n)) is Err,
    ensures
        announced(rows) == announced(rows.take(n)),
    decreases rows.len() - n,
{
    if n < rows.len() {
        assert(rows.take(n + 1).drop_last() =~= rows.take(n));
        lemma_announced_fails(rows, n + 1);
    } else {
        assert(rows.take(n) =~= rows);
    }
}

fn read_row(row: &str, earlier: Option<usize>) -> (outcome: Result<Option<usize>, Refusal>)
    ensures
        crate::procfs::comes_to(
            outcome,
            if row@.len() == 0 {
                Ok(earlier)
            } else {
                match cut_first(row@, ':') {
                    None => Err("stable CultNet HTTP response contains a malformed header"@),
                    Some((name, value)) => if lowered(name) == "transfer-encoding"@ {
                        Err("stable CultNet HTTP response uses unsupported transfer encoding"@)
                    } else if lowered(name) != "content-length"@ {
                        Ok(earlier)
                    } else if earlier is Some {
                        Err("stable CultNet HTTP response repeats Content-Length"@)
                    } else {
                        match decimal_number(trimmed(value), usize::MAX as int) {
                            None => Err("stable CultNet HTTP Content-Length is invalid"@),
                            Some(n) => Ok(Some(n as usize)),
                        }
                    },
                }
            },
        ),
{
    if row.is_empty() {
        return Ok(earlier);
    }
    let (name, value) = match split_once(row, ':') {
        Some(halves) => halves,
        None => return Err(
            refuse("stable CultNet HTTP response contains a malformed header"),
        ),
    };
    if is_name(name.as_str(), "transfer-encoding") {
        return Err(refuse("stable CultNet HTTP response uses unsupported transfer encoding"));
    }
    if !is_name(name.as_str(), "content-length") {
        return Ok(earlier);
    }
    if earlier.is_some() {
        return Err(refuse("stable CultNet HTTP response repeats Content-Length"));
    }
    let digits = trim(value.as_str());
    match parse_decimal(digits.as_str(), usize::MAX as u64) {
        None => Err(refuse("stable CultNet HTTP Content-Length is invalid")),
        Some(n) => Ok(Some(n as usize)),
    }
}

fn read_announced(rows: &Vec<String>, from: usize) -> (outcome: Result<Option<usize>, Refusal>)
    requires
        from <= rows@.len(),
    ensures
        crate::procfs::comes_to(outcome, announced(texts(rows@).skip(from as int))),
{
    let ghost all = texts(rows@).skip(from as int);
    let mut length: Option<usize> = None;
    let mut i: usize = from;
    assert(all.take(0) =~= Seq::<Seq<char>>::empty());
    while i < rows.len()
        invariant
            from <= i <= rows@.len(),
            all == texts(rows@).skip(from as int),
            announced(all.take(i - from)) == Ok::<Option<usize>, Seq<char>>(length),
        decreases rows@.len() - i,
    {
        proof {
            assert(all.take(i - from + 1).drop_last() =~= all.take(i - from));
            assert(all.take(i - from + 1).last() == rows@[i as int]@);
        }
        match read_row(rows[i].as_str(), length) {
            Ok(next) => {
                length = next;
            },
            Err(refusal) => {
                proof {
                    lemma_announced_fails(all, i - from + 1);
                }
                return Err(refusal);
            },
        }
        i += 1;
    }
    assert(all.take(i - from) =~= all);
    Ok(length)
}

/// The body of a reply whose headers end at a place, or why it is refused.
pub open spec fn body_behind(bytes: Seq<u8>, end: int) -> Result<Seq<u8>, Seq<char>> {
    match text_in(bytes.take(end), "stable CultNet HTTP response headers are not UTF-8"@) {
        Err(w) => Err(w),
        Ok(text) => {
            let rows = header_lines(text, 0, 0);
            if rows[0] != "HTTP/1.1 200 OK"@ && rows[0] != "HTTP/1.0 200 OK"@ {
                Err("stable CultNet HTTP route rejected the snapshot challenge: "@ + rows[0])
            } else {
                match announced(rows.skip(1)) {
                    Err(w) => Err(w),
                    Ok(None) => Err("stable CultNet HTTP response has no Content-Length"@),
                    Ok(Some(length)) => if length <= ROUTE_SNAPSHOT_MAX_BYTES && bytes.len() - end
                        == length {
                        Ok(bytes.skip(end))
                    } else {
                        Err(
                            "stable CultNet HTTP response body differs from its bounded Content-Length"@,
                        )
                    },
                }
            }
        },
    }
}

/// The body of a reply, or why it is refused.
pub open spec fn http_body(bytes: Seq<u8>) -> Result<Seq<u8>, Seq<char>> {
    if bytes.len() > ROUTE_HTTP_MAX_HEADER_BYTES + ROUTE_SNAPSHOT_MAX_BYTES {
        Err("stable CultNet HTTP response exceeds the route observation bound"@)
    } else {
        match header_end(bytes) {
            None => Err("stable CultNet HTTP response has no header boundary"@),
            Some(end) => if end > ROUTE_HTTP_MAX_HEADER_BYTES {
                Err("stable CultNet HTTP response headers exceed their bound"@)
            } else {
                body_behind(bytes, end)
            },
        }
    }
}

proof fn lemma_header_lines_some(s: Seq<char>, from: int, at: int)
    ensures
        header_lines(s, from, at).len() > 0,
    decreases s.len() - at,
{
    if at < s.len() && !line_end_at(s, at) {
        lemma_header_lines_some(s, from, at + 1);
    }
}

fn read_body_behind(response: &[u8], end: usize) -> (outcome: Result<Vec<u8>, Refusal>)
    requires
        end <= response@.len(),
    ensures
        match (outcome, body_behind(response@, end as int)) {
            (Ok(body), Ok(owed)) => body@ == owed,
            (Err(refusal), Err(w)) => refusal@ == w,
            _ => false,
        },
{
    let head = bytes_before(response, end);
    let text = text_of_bytes(
        head.as_slice(),
        "stable CultNet HTTP response headers are not UTF-8",
    )?;
    let rows = split_header(text.as_str());
    proof {
        lemma_header_lines_some(text@, 0, 0);
        assert(texts(rows@)[0] == rows@[0]@);
    }
    let status = rows[0].as_str();
    if !same_text(status, "HTTP/1.1 200 OK") && !same_text(status, "HTTP/1.0 200 OK") {
        return Err(
            Refusal {
                text: cat2(
                    "stable CultNet HTTP route rejected the snapshot challenge: ",
                    status,
                ),
            },
        );
    }
    match read_announced(&rows, 1)? {
        None => Err(refuse("stable CultNet HTTP response has no Content-Length")),
        Some(length) => {
            if length <= ROUTE_SNAPSHOT_MAX_BYTES && response.len() - end == length {
                Ok(bytes_after(response, end))
            } else {
                Err(
                    refuse(
                        "stable CultNet HTTP response body differs from its bounded Content-Length",
                    ),
                )
            }
        },
    }
}

/// Takes the body out of a reply.
pub fn http_reply_body(response: &[u8]) -> (outcome: Result<Vec<u8>, Refusal>)
    ensures
        match (outcome, http_body(response@)) {
            (Ok(body), Ok(owed)) => body@ == owed,
            (Err(refusal), Err(w)) => refusal@ == w,
            _ => false,
        },
{
    check(
        response.len() <= ROUTE_HTTP_MAX_HEADER_BYTES + ROUTE_SNAPSHOT_MAX_BYTES,
        "stable CultNet HTTP response exceeds the route observation bound",
    )?;
    let end: usize = match find_header_end(response) {
        Some(end) => end,
        None => return Err(refuse("stable CultNet HTTP response has no header boundary")),
    };
    check(
        end <= ROUTE_HTTP_MAX_HEADER_BYTES,
        "stable CultNet HTTP response headers exceed their bound",
    )?;
    read_body_behind(response, end)
}

/// One document of a snapshot.
#[derive(Clone, Debug, PartialEq, Eq)]
pub struct SnapshotDocument {
    pub schema_id: String,
    pub record_key: String,
    pub is_messagepack: bool,
    pub payload: Vec<u8>,
}

/// A listener's reply to a snapshot request.
#[derive(Clone, Debug, PartialEq, Eq)]
pub enum SnapshotReply {
    Raw { message_id: String, documents: Vec<SnapshotDocument> },
    Other,
}

/// The presence that a route showed in answer to a challenge.
#[derive(Clone, Debug, PartialEq, Eq)]
pub struct RouteSnapshotResponse {
    pub message_id: String,
    pub canonical_presence: Vec<u8>,
}

/// Why a document is not the presence that was asked for, if so.
pub open spec fn presence_refusal(
    document: SnapshotDocument,
    target: Seq<char>,
    presence_schema: Seq<char>,
) -> Option<Seq<char>> {
    either(
        unless(
            document.schema_id@ == presence_schema && document.record_key@ == target
                && document.is_messagepack,
            "stable route substituted the runtime presence document"@,
        ),
        unless(
            0 < document.payload@.len() <= ROUTE_SNAPSHOT_MAX_BYTES,
            "stable route presence payload is empty or exceeds its bound"@,
        ),
    )
}

/// Why a reply is not the presence that was asked for, if so.
pub open spec fn reply_refusal(
    reply: SnapshotReply,
    message_id: Seq<char>,
    target: Seq<char>,
    presence_schema: Seq<char>,
) -> Option<Seq<char>> {
    match reply {
        SnapshotReply::Other => Some("stable route returned a non-raw snapshot response"@),
        SnapshotReply::Raw { message_id: id, documents } => either(
            unless(
                id@ == message_id,
                "stable route snapshot response belongs to another challenge"@,
            ),
            either(
                unless(
                    documents@.len() == 1,
                    "stable route snapshot response is not the exact singleton presence document"@,
                ),
                presence_refusal(documents@[0], target, presence_schema),
            ),
        ),
    }
}

/// Takes the one presence out of a reply that was asked for.
pub fn exact_route_snapshot_response(
    reply: SnapshotReply,
    message_id: &str,
    target: &str,
    presence_schema: &str,
) -> (outcome: Result<RouteSnapshotResponse, Refusal>)
    ensures
        match reply_refusal(reply, message_id@, target@, presence_schema@) {
            Some(w) => outcome matches Err(refusal) && refusal@ == w,
            None => outcome matches Ok(found) && found.message_id@ == message_id@
                && (reply matches SnapshotReply::Raw { documents, .. }
                && found.canonical_presence@ == documents@[0].payload@),
        },
{
    match reply {
        SnapshotReply::Other => Err(refuse("stable route returned a non-raw snapshot response")),
        SnapshotReply::Raw { message_id: id, documents } => {
            check(
                same_text(id.as_str(), message_id),
                "stable route snapshot response belongs to another challenge",
            )?;
            check(
                documents.len() == 1,
                "stable route snapshot response is not the exact singleton presence document",
            )?;
            let document = &documents[0];
            check(
                same_text(document.schema_id.as_str(), presence_schema) && same_text(
                    document.record_key.as_str(),
                    target,
                ) && document.is_messagepack,
                "stable route substituted the runtime presence document",
            )?;
            check(
                document.payload.len() > 0 && document.payload.len() <= ROUTE_SNAPSHOT_MAX_BYTES,
                "stable route presence payload is empty or exceeds its bound",
            )?;
            Ok(
                RouteSnapshotResponse {
                    message_id: id,
                    canonical_presence: crate::text::copy_bytes(document.payload.as_slice()),
                },
            )
        },
    }
}

} // verus!
