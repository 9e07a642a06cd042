use idunn_drivers::clock::{creation_millis, rfc3339_millis};
use idunn_drivers::digest::{
    absorb, begin_digest, finish_id, finish_raw, hex_of, is_hex, is_lower_hex, raw_sha256,
    require_driver_id, require_git_sha, require_sha256_id, sha256_id, sha256_reader,
};
use idunn_drivers::encoding::{command_contract, contract_id, environment_contract, frame_bytes};
use idunn_drivers::fresh::{
    fresh_gitlink_checkout, fresh_install_stage, fresh_name, fresh_route_stage, gitlink_checkout,
    install_stage, route_stage, text_of_identifier,
};
use idunn_drivers::maps::{collect, TextMap};
use idunn_drivers::paths::{
    components_of, file_name_of, is_absolute, is_below, is_same_path, join, parent_of,
};
use idunn_drivers::scan::{
    contains_text, decimal_of, is_control, is_whitespace, lines_of, parse_decimal,
    parse_hexadecimal, rsplit_once, split_once, split_text, strip_prefix, strip_suffix,
    text_before, trim, words_of,
};
use idunn_drivers::text::Refusal;
use idunn_drivers::wire::{
    exact_route_snapshot_response, http_reply_body, http_request_head, tcp_reply_length,
    SnapshotDocument, SnapshotReply,
};

#[test]
fn digests_are_those_of_sha_256() {
    assert_eq!(
        raw_sha256(b"abc"),
        "ba7816bf8f01cfea414140de5dae2223b00361a396177a9cb410ff61f20015ad"
    );
    assert_eq!(
        sha256_id(b""),
        "sha256-e3b0c44298fc1c149afbf4c8996fb92427ae41e4649b934ca495991b7852b855"
    );
    assert_eq!(sha256_reader(&[b"a".to_vec(), b"bc".to_vec()]), sha256_id(b"abc"));
    let mut hasher = begin_digest();
    absorb(&mut hasher, b"ab");
    absorb(&mut hasher, b"c");
    assert_eq!(finish_id(hasher), sha256_id(b"abc"));
    let mut hasher = begin_digest();
    absorb(&mut hasher, b"abc");
    assert_eq!(finish_raw(hasher), raw_sha256(b"abc"));
    assert_eq!(hex_of(&[0x00, 0x0f, 0xff]), "000fff");
}

#[test]
fn identifiers_are_exact() {
    assert!(require_git_sha(&"a1".repeat(20), "revision").is_ok());
    assert_eq!(
        require_git_sha(&"A1".repeat(20), "revision").unwrap_err().text,
        "revision is not a lowercase SHA-1 object id"
    );
    assert!(require_sha256_id(&sha256_id(b"x"), "release").is_ok());
    assert!(require_sha256_id("sha256-xyz", "release").is_err());
    assert!(require_driver_id("txn-1", "transaction").is_ok());
    assert_eq!(
        require_driver_id("a/b", "transaction").unwrap_err().text,
        "transaction id is invalid"
    );
    assert!(is_lower_hex("0af") && !is_lower_hex("0AF") && is_hex("0AF") && !is_hex("g"));
}

#[test]
fn paths_are_taken_apart_as_the_system_does() {
    assert!(is_absolute("/a") && !is_absolute("a"));
    assert_eq!(components_of("/a//b/./c/"), vec!["a", "b", "c"]);
    assert!(is_same_path("/a//b/", "/a/b"));
    assert!(!is_same_path("a/b", "/a/b"));
    assert!(is_below("/a/b/c", "/a/b") && is_below("/a/b", "/a/b") && !is_below("/a/bc", "/a/b"));
    assert_eq!(join("/a", "b/c"), "/a/b/c");
    assert_eq!(join("/a/", "b"), "/a/b");
    assert_eq!(join("/a", "/b"), "/b");
    assert_eq!(parent_of("/a/b"), Some("/a".into()));
    assert_eq!(parent_of("/"), None);
    assert_eq!(file_name_of("/a/b"), Some("b".into()));
    assert_eq!(file_name_of("/a/.."), None);
}

#[test]
fn texts_are_scanned_as_the_system_does() {
    assert_eq!(split_text("a,,b", ','), vec!["a", "", "b"]);
    assert_eq!(split_once("a=b=c", '='), Some(("a".into(), "b=c".into())));
    assert_eq!(rsplit_once("a=b=c", '='), Some(("a=b".into(), "c".into())));
    assert_eq!(split_once("abc", '='), None);
    assert_eq!(strip_prefix("sha256-x", "sha256-"), Some("x".into()));
    assert_eq!(strip_suffix("a.lock", ".lock"), Some("a".into()));
    assert_eq!(strip_suffix("a", ".lock"), None);
    assert_eq!(lines_of("a\r\nb\n\nc"), vec!["a", "b", "", "c"]);
    assert_eq!(trim(" \ta b\u{2003}\n"), "a b");
    assert_eq!(words_of(" a\u{a0}b  c "), vec!["a", "b", "c"]);
    for c in (0u32..0x3100).filter_map(char::from_u32) {
        assert_eq!(is_whitespace(c), c.is_whitespace());
        assert_eq!(is_control(c), c.is_control());
    }
    assert_eq!(parse_decimal("+12", 100), Some(12));
    assert_eq!(parse_decimal("101", 100), None);
    assert_eq!(parse_decimal("", 100), None);
    assert_eq!(parse_hexadecimal("fF", 255), Some(255));
    assert_eq!(decimal_of(u64::MAX), u64::MAX.to_string());
    assert!(text_before("a", "ab") && text_before("Z", "a") && !text_before("a", "a"));
    assert!(contains_text("runtime", "unt") && !contains_text("runtime", "nut"));
}

#[test]
fn maps_hold_one_value_for_each_name_in_order() {
    let map = collect(&[
        ("b".into(), "1".into()),
        ("a".into(), "2".into()),
        ("b".into(), "3".into()),
    ]);
    assert_eq!(map.names(), vec!["a", "b"]);
    assert_eq!(map.get("b"), Some("3".into()));
    assert_eq!(map.get("c"), None);
    assert_eq!((map.len(), map.name_at(1), map.value_at(0)), (2, "b", "2"));
    assert!(map.same(&TextMap::empty().inserted("a", "2").inserted("b", "3")));
    assert!(!map.same(&TextMap::empty()));
    assert_eq!(map.find("b"), Some(1));
}

#[test]
fn instants_are_written_and_read() {
    assert_eq!(rfc3339_millis(1_500).unwrap(), "1970-01-01T00:00:01.500+00:00");
    assert_eq!(
        rfc3339_millis(u64::MAX).unwrap_err().text,
        "out of range integral type conversion attempted"
    );
    assert_eq!(
        rfc3339_millis(i64::MAX as u64).unwrap_err().text,
        "runtime timestamp is out of range"
    );
    assert_eq!(creation_millis("1970-01-01T00:00:01.500Z").unwrap(), 1_500);
    assert_eq!(
        creation_millis("1969-12-31T23:59:59Z").unwrap_err().text,
        "runtime presence trust anchor creation time predates Unix epoch"
    );
    assert!(creation_millis("yesterday").is_err());
}

#[test]
fn contracts_are_digests_of_what_is_packed() -> Result<(), Refusal> {
    let environment = TextMap::empty().inserted("A", "1");
    assert_eq!(environment_contract(&environment)?, sha256_id(&[0x81, 0xa1, b'A', 0xa1, b'1']));
    assert_eq!(
        command_contract(&"x".to_owned(), &vec!["y".to_owned()])?,
        sha256_id(&[0x92, 0xa1, b'x', 0x91, 0xa1, b'y'])
    );
    assert_eq!(
        frame_bytes(&"p".to_owned(), &"h".to_owned(), &vec![1], 2, &vec![3])?,
        vec![0x95, 0xa1, b'p', 0xa1, b'h', 0x91, 1, 2, 0x91, 3]
    );
    assert_eq!(contract_id(Ok(b"abc".to_vec()))?, sha256_id(b"abc"));
    assert_eq!(contract_id(Err("no room".into())).unwrap_err().text, "no room");
    Ok(())
}

#[test]
fn fresh_names_are_written_as_identifiers_are() {
    let bytes: Vec<u8> = (0u8..16).map(|n| n * 17).collect();
    assert_eq!(text_of_identifier(&bytes), "00112233-4455-6677-8899-aabbccddeeff");
    let mut given = [0u8; 16];
    given.copy_from_slice(&bytes);
    assert_eq!(text_of_identifier(&bytes), uuid::Uuid::from_bytes(given).to_string());
    let (one, two) = (fresh_name(), fresh_name());
    assert_ne!(one, two);
    assert_eq!(uuid::Uuid::parse_str(&one).unwrap().to_string(), one);
}

#[test]
fn places_of_a_moment_have_names_of_their_own() -> Result<(), Refusal> {
    assert_eq!(gitlink_checkout("/c", "abc", "n"), "/c/abc-n");
    assert!(fresh_gitlink_checkout("/c", "abc").starts_with("/c/abc-"));
    assert_eq!(install_stage("/r", "sha256-a", "n"), "/r/.install-sha256-a-n");
    assert!(fresh_install_stage("/r", "sha256-a").starts_with("/r/.install-sha256-a-"));
    assert_eq!(route_stage("/n/odin.conf", "n")?, "/n/.odin.conf.idunn-n");
    assert!(fresh_route_stage("/n/odin.conf")?.starts_with("/n/.odin.conf.idunn-"));
    let words = |path: &str| route_stage(path, "n").unwrap_err().text;
    assert_eq!(words("odin.conf"), "route path is not absolute");
    assert_eq!(words("/"), "route path has no parent");
    assert_eq!(words("/a/.."), "route path has no file name");
    Ok(())
}

fn reply(head: &str, body: &str) -> Vec<u8> {
    format!("{head}\r\n\r\n{body}").into_bytes()
}

#[test]
fn a_snapshot_is_asked_for_and_read_over_http() {
    assert_eq!(
        http_request_head("127.0.0.1:4103", 7),
        "POST /cultnet/snapshot HTTP/1.1\r\nHost: 127.0.0.1:4103\r\nContent-Type: application/msgpack\r\nAccept: application/msgpack\r\nContent-Length: 7\r\nConnection: close\r\n\r\n"
    );
    let good = reply("HTTP/1.1 200 OK\r\ncontent-LENGTH: 2", "ok");
    assert_eq!(http_reply_body(&good).unwrap(), b"ok");
    let words = |head: &str, body: &str| http_reply_body(&reply(head, body)).unwrap_err().text;
    assert_eq!(
        words("HTTP/1.1 404 Not Found", ""),
        "stable CultNet HTTP route rejected the snapshot challenge: HTTP/1.1 404 Not Found"
    );
    assert_eq!(
        words("HTTP/1.1 200 OK", ""),
        "stable CultNet HTTP response has no Content-Length"
    );
    assert_eq!(
        words("HTTP/1.1 200 OK\r\nContent-Length: 2\r\nContent-Length: 2", "ok"),
        "stable CultNet HTTP response repeats Content-Length"
    );
    assert_eq!(
        words("HTTP/1.1 200 OK\r\nTransfer-Encoding: chunked", ""),
        "stable CultNet HTTP response uses unsupported transfer encoding"
    );
    assert_eq!(
        words("HTTP/1.1 200 OK\r\nnonsense", ""),
        "stable CultNet HTTP response contains a malformed header"
    );
    assert_eq!(
        words("HTTP/1.1 200 OK\r\nContent-Length: x", ""),
        "stable CultNet HTTP Content-Length is invalid"
    );
    assert_eq!(
        words("HTTP/1.1 200 OK\r\nContent-Length: 3", "ok"),
        "stable CultNet HTTP response body differs from its bounded Content-Length"
    );
    assert_eq!(
        http_reply_body(b"HTTP/1.1 200 OK").unwrap_err().text,
        "stable CultNet HTTP response has no header boundary"
    );
}

#[test]
fn a_reply_over_tcp_is_bounded() {
    assert_eq!(tcp_reply_length([0, 0, 1, 2]).unwrap(), 258);
    assert!(tcp_reply_length([0, 0, 0, 0]).is_err());
    assert_eq!(
        tcp_reply_length([255, 0, 0, 0]).unwrap_err().text,
        "stable CultNet TCP response exceeds the route observation bound"
    );
}

#[test]
fn a_snapshot_is_the_exact_singleton_presence() -> Result<(), Refusal> {
    let document = |payload: &[u8]| SnapshotDocument {
        schema_id: "presence".into(),
        record_key: "service".into(),
        is_messagepack: true,
        payload: payload.to_vec(),
    };
    let raw = |documents: Vec<SnapshotDocument>| SnapshotReply::Raw {
        message_id: "m".into(),
        documents,
    };
    let read = |reply: SnapshotReply, message: &str| {
        exact_route_snapshot_response(reply, message, "service", "presence")
    };
    let found = read(raw(vec![document(b"p")]), "m")?;
    assert_eq!((found.message_id.as_str(), found.canonical_presence.as_slice()), ("m", &b"p"[..]));
    let words = |reply: SnapshotReply, message: &str| read(reply, message).unwrap_err().text;
    assert_eq!(
        words(SnapshotReply::Other, "m"),
        "stable route returned a non-raw snapshot response"
    );
    assert_eq!(
        words(raw(vec![document(b"p")]), "other"),
        "stable route snapshot response belongs to another challenge"
    );
    assert_eq!(
        words(raw(vec![]), "m"),
        "stable route snapshot response is not the exact singleton presence document"
    );
    let foreign = SnapshotDocument { record_key: "other".into(), ..document(b"p") };
    assert_eq!(
        words(raw(vec![foreign]), "m"),
        "stable route substituted the runtime presence document"
    );
    assert_eq!(
        words(raw(vec![document(b"")]), "m"),
        "stable route presence payload is empty or exceeds its bound"
    );
    Ok(())
}
