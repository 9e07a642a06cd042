//! What is asked over a stable route, and which answers are taken.
use vstd::prelude::*;

use crate::procfs::text_in;
use crate::scan::{cut_first, decimal, decimal_number, trimmed};
use crate::stream::lemma_decimal;
use crate::wire::{
    announced, big_endian, blank_line_at, header_end, header_lines, headers_end,
    http_body, http_head, line_end_at, lowered, reply_refusal, SnapshotReply,
};

verus! {

/// A length that stands before a reply is read with its first byte as the greatest.
pub proof fn a_length_is_read_from_its_greatest_byte(b: Seq<u8>)
    requires
        b.len() == 4,
    ensures
        big_endian(b) == ((b[0] * 256 + b[1]) * 256 + b[2]) * 256 + b[3],
        0 <= big_endian(b) <= u32::MAX,
{
}

/// A challenge is posted to the target that it is for, and announces the length that its body
/// has, as a decimal number that is read back.
pub proof fn a_challenge_announces_its_own_length(target: Seq<char>, length: usize)
    ensures
        ("POST /cultnet/snapshot HTTP/1.1\r\nHost: "@ + target + "\r\n"@).is_prefix_of(
            http_head(target, length as nat),
        ),
        ("\r\nContent-Length: "@ + decimal(length as nat)
            + "\r\nConnection: close\r\n\r\n"@).is_suffix_of(http_head(target, length as nat)),
        decimal_number(decimal(length as nat), usize::MAX as int) == Some(length as int),
{
    lemma_decimal(length as nat);
    reveal_strlit("POST /cultnet/snapshot HTTP/1.1\r\nHost: ");
    reveal_strlit("\r\n");
    reveal_strlit("\r\nContent-Length: ");
    reveal_strlit("\r\nConnection: close\r\n\r\n");
    reveal_strlit(
        "\r\nContent-Type: application/msgpack\r\nAccept: application/msgpack\r\nContent-Length: ",
    );
    let head = http_head(target, length as nat);
    let first = "POST /cultnet/snapshot HTTP/1.1\r\nHost: "@ + target + "\r\n"@;
    let last = "\r\nContent-Length: "@ + decimal(length as nat)
        + "\r\nConnection: close\r\n\r\n"@;
    assert(first =~= head.subrange(0, first.len() as int));
    assert(last =~= head.subrange(head.len() - last.len(), head.len() as int));
}

/// Whether a row of a header is the field of a name, in whatever case the name is written.
pub open spec fn is_field(row: Seq<char>, name: Seq<char>) -> bool {
    cut_first(row, ':') matches Some((own, _)) && own.len() == name.len() && forall|i: int|
        0 <= i < name.len() ==> #[trigger] own[i] == name[i] || ('A' <= own[i] <= 'Z'
            && own[i] as int + 32 == name[i] as int)
}

proof fn lemma_field_name(row: Seq<char>, name: Seq<char>)
    requires
        forall|i: int| 0 <= i < name.len() ==> !('A' <= #[trigger] name[i] <= 'Z'),
    ensures
        cut_first(row, ':') matches Some((own, _)) ==> (lowered(own) == name <==> is_field(
            row,
            name,
        )),
{
    if let Some((own, rest)) = cut_first(row, ':') {
        if lowered(own) == name {
            assert forall|i: int| 0 <= i < name.len() implies #[trigger] own[i] == name[i] || ('A'
                <= own[i] <= 'Z' && own[i] as int + 32 == name[i] as int) by {
                assert(lowered(own)[i] == name[i]);
            }
        }
        if is_field(row, name) {
            assert forall|i: int| 0 <= i < name.len() implies #[trigger] lowered(own)[i]
                == name[i] by {
                assert(own[i] == name[i] || ('A' <= own[i] <= 'Z' && own[i] as int + 32
                    == name[i] as int));
            }
            assert(lowered(own) =~= name);
        }
    }
}

/// Whether a row announces a length.
pub open spec fn announces(row: Seq<char>, n: usize) -> bool {
    row.len() > 0 && is_field(row, "content-length"@) && (cut_first(row, ':') matches Some(
        (_, value),
    ) && (decimal_number(trimmed(value), usize::MAX as int) matches Some(m) && m as usize == n))
}

/// A length is taken from the one row that announces it: no other row announces any, none
/// speaks of a transfer encoding, and every row is a field.
pub proof fn a_length_is_announced_once(rows: Seq<Seq<char>>)
    ensures
        announced(rows) matches Ok(length) ==> {
            &&& forall|i: int|
                0 <= i < rows.len() && (#[trigger] rows[i]).len() > 0 ==> rows[i].contains(':')
                    && !is_field(rows[i], "transfer-encoding"@)
            &&& match length {
                Some(n) => exists|k: int|
                    0 <= k < rows.len() && announces(#[trigger] rows[k], n) && forall|i: int|
                        0 <= i < rows.len() && (#[trigger] rows[i]).len() > 0 && i != k
                            ==> !is_field(rows[i], "content-length"@),
                None => forall|i: int|
                    0 <= i < rows.len() && (#[trigger] rows[i]).len() > 0 ==> !is_field(
                        rows[i],
                        "content-length"@,
                    ),
            }
        },
    decreases rows.len(),
{
    reveal_strlit("content-length");
    reveal_strlit("transfer-encoding");
    if announced(rows) is Ok && rows.len() > 0 {
        let row = rows.last();
        let fewer = rows.drop_last();
        a_length_is_announced_once(fewer);
        lemma_field_name(row, "content-length"@);
        lemma_field_name(row, "transfer-encoding"@);
        let earlier = announced(fewer)->Ok_0;
        let length = announced(rows)->Ok_0;
        assert forall|i: int|
            0 <= i < rows.len() && (#[trigger] rows[i]).len() > 0 implies rows[i].contains(':')
            && !is_field(rows[i], "transfer-encoding"@) by {
            if i < fewer.len() {
                assert(fewer[i] == rows[i]);
            }
        }
        if let Some(n) = length {
            if earlier is Some {
                assert(length == earlier);
                let k = choose|k: int|
                    0 <= k < fewer.len() && announces(#[trigger] fewer[k], n) && forall|i: int|
                        0 <= i < fewer.len() && (#[trigger] fewer[i]).len() > 0 && i != k
                            ==> !is_field(fewer[i], "content-length"@);
                assert(rows[k] == fewer[k]);
                assert forall|i: int|
                    0 <= i < rows.len() && (#[trigger] rows[i]).len() > 0 && i
                        != k implies !is_field(rows[i], "content-length"@) by {
                    if i < fewer.len() {
                        assert(fewer[i] == rows[i]);
                    }
                }
            } else {
                let k = rows.len() - 1;
                assert(announces(rows[k], n));
                assert forall|i: int|
                    0 <= i < rows.len() && (#[trigger] rows[i]).len() > 0 && i
                        != k implies !is_field(rows[i], "content-length"@) by {
                    assert(fewer[i] == rows[i]);
                }
            }
        } else {
            assert forall|i: int|
                0 <= i < rows.len() && (#[trigger] rows[i]).len() > 0 implies !is_field(
                rows[i],
                "content-length"@,
            ) by {
                if i < fewer.len() {
                    assert(fewer[i] == rows[i]);
                }
            }
        }
    }
}

/// The body of a response is all that stands behind its first blank line, and as long as its
/// header announces; header and body keep within their bounds, and the status is a success.
pub proof fn a_body_is_what_its_header_announces(bytes: Seq<u8>)
    ensures
        http_body(bytes) matches Ok(body) ==> exists|head: Seq<u8>|
            {
                &&& bytes == #[trigger] (head + body)
                &&& 4 <= head.len() <= 32_768
                &&& body.len() <= 1_048_576
                &&& head.skip(head.len() - 4) == seq![13u8, 10u8, 13u8, 10u8]
                &&& forall|i: int|
                    0 <= i < head.len() - 4 ==> #[trigger] head.subrange(i, i + 4) != seq![
                        13u8,
                        10u8,
                        13u8,
                        10u8,
                    ]
                &&& exists|text: Seq<char>|
                    {
                        &&& vstd::utf8::encode_utf8(text) == head
                        &&& {
                            let rows = #[trigger] header_lines(text, 0, 0);
                            &&& rows[0] == "HTTP/1.1 200 OK"@ || rows[0] == "HTTP/1.0 200 OK"@
                            &&& announced(rows.skip(1)) == Ok::<Option<usize>, Seq<char>>(
                                Some(body.len() as usize),
                            )
                        }
                    }
            },
{
    if let Ok(body) = http_body(bytes) {
        let end = header_end(bytes)->0;
        assert(headers_end(bytes, end));
        let head = bytes.take(end);
        assert(blank_line_at(bytes, end - 4));
        assert(bytes =~= head + body);
        assert(head.skip(head.len() - 4) =~= seq![13u8, 10u8, 13u8, 10u8]);
        assert forall|i: int| 0 <= i < head.len() - 4 implies #[trigger] head.subrange(i, i + 4)
            != seq![13u8, 10u8, 13u8, 10u8] by {
            let four = head.subrange(i, i + 4);
            assert(!blank_line_at(bytes, i));
            assert(four[0] == bytes[i] && four[1] == bytes[i + 1] && four[2] == bytes[i + 2]
                && four[3] == bytes[i + 3]);
        }
        let text = text_in(
            head,
            "stable CultNet HTTP response headers are not UTF-8"@,
        )->Ok_0;
        let rows = header_lines(text, 0, 0);
        assert(announced(rows.skip(1)) == Ok::<Option<usize>, Seq<char>>(
            Some(body.len() as usize),
        ));
        vstd::utf8::decode_utf8_encode_utf8(head);
    }
}

/// Rows with a line end between each two.
pub open spec fn joined_rows(rows: Seq<Seq<char>>) -> Seq<char>
    decreases rows.len(),
{
    if rows.len() == 0 {
        Seq::empty()
    } else if rows.len() == 1 {
        rows[0]
    } else {
        rows[0] + "\r\n"@ + joined_rows(rows.skip(1))
    }
}

proof fn lemma_rows(s: Seq<char>, from: int, at: int)
    requires
        0 <= from <= at <= s.len(),
        forall|j: int| from <= j < at ==> !#[trigger] line_end_at(s, j),
    ensures
        header_lines(s, from, at).len() > 0,
        joined_rows(header_lines(s, from, at)) == s.skip(from),
        forall|i: int, j: int|
            0 <= i < header_lines(s, from, at).len() ==> !#[trigger] line_end_at(
                header_lines(s, from, at)[i],
                j,
            ),
    decreases s.len() - at,
{
    reveal_strlit("\r\n");
    let rows = header_lines(s, from, at);
    if at >= s.len() {
        let row = s.subrange(from, s.len() as int);
        assert(row =~= s.skip(from));
        assert forall|j: int| !#[trigger] line_end_at(row, j) by {
            assert(from <= from + j < at ==> !line_end_at(s, from + j));
        }
    } else if line_end_at(s, at) {
        let row = s.subrange(from, at);
        let rest = header_lines(s, at + 2, at + 2);
        lemma_rows(s, at + 2, at + 2);
        assert(rows.skip(1) =~= rest);
        assert(row + "\r\n"@ + s.skip(at + 2) =~= s.skip(from));
        assert forall|j: int| !#[trigger] line_end_at(row, j) by {
            assert(from <= from + j < at ==> !line_end_at(s, from + j));
        }
        assert forall|i: int, j: int| 0 <= i < rows.len() implies !#[trigger] line_end_at(
            rows[i],
            j,
        ) by {
            if i > 0 {
                assert(rows[i] == rest[i - 1]);
            }
        }
    } else {
        lemma_rows(s, from, at + 1);
    }
}

/// A header is read row by row: its rows with their line ends are the header again, and no row
/// has a line end within it.
pub proof fn a_header_is_read_row_by_row(text: Seq<char>)
    ensures
        joined_rows(header_lines(text, 0, 0)) == text,
        forall|i: int, j: int|
            0 <= i < header_lines(text, 0, 0).len() ==> !#[trigger] line_end_at(
                header_lines(text, 0, 0)[i],
                j,
            ),
{
    lemma_rows(text, 0, 0);
    assert(text.skip(0) =~= text);
}

/// A snapshot is taken exactly where it answers the challenge that was put, with the one
/// document that was asked for, of the schema and the key that were asked for, packed, and
/// neither empty nor too long.
pub proof fn only_the_document_asked_for_is_taken(
    reply: SnapshotReply,
    message_id: Seq<char>,
    target: Seq<char>,
    presence_schema: Seq<char>,
)
    ensures
        reply_refusal(reply, message_id, target, presence_schema) is None <==> (
        reply matches SnapshotReply::Raw { message_id: id, documents } && {
            &&& id@ == message_id
            &&& documents@.len() == 1
            &&& documents@[0].schema_id@ == presence_schema
            &&& documents@[0].record_key@ == target
            &&& documents@[0].is_messagepack
            &&& 0 < documents@[0].payload@.len() <= 1_048_576
        }),
{
}

} // verus!
