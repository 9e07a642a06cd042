//! Values as MessagePack: what the drivers take from `rmp_serde`.
use vstd::prelude::*;

use crate::digest::{digest_id, sha256_id};
use crate::maps::TextMap;
use crate::text::{texts, Refusal};

verus! {

/// The MessagePack of a map of texts.
pub uninterp spec fn packed_map(pairs: Seq<(Seq<char>, Seq<char>)>) -> Seq<u8>;

/// The MessagePack of an executable and its arguments.
pub uninterp spec fn packed_command(executable: Seq<char>, arguments: Seq<Seq<char>>) -> Seq<u8>;

/// The MessagePack of what a signature covers: a protocol, a host, a session's nonce, a
/// sequence number and a body.
pub uninterp spec fn packed_frame(
    protocol: Seq<char>,
    host: Seq<char>,
    nonce: Seq<u8>,
    sequence: int,
    body: Seq<u8>,
) -> Seq<u8>;

/// The MessagePack of an envelope: the parts of its frame, who signed it, and the signature.
pub uninterp spec fn packed_envelope(
    protocol: Seq<char>,
    host: Seq<char>,
    nonce: Seq<u8>,
    sequence: int,
    body: Seq<u8>,
    signer: Seq<char>,
    signature: Seq<u8>,
) -> Seq<u8>;

/// `rmp_serde::to_vec` of a map from names to texts: where it succeeds, a function of the
/// map alone. That it succeeds is not stated: its buffer may fail to grow. The pairs stand in
/// the order of their names, none of them twice, so that the map holds them as they are.
#[verifier::external_body]
fn pack_map(pairs: &Vec<(String, String)>) -> (packed: Result<Vec<u8>, String>)
    requires
        crate::maps::sorted(crate::maps::pairs_of(pairs@)),
    ensures
        packed matches Ok(bytes) ==> bytes@ == packed_map(crate::maps::pairs_of(pairs@)),
{
    let map: std::collections::BTreeMap<String, String> = pairs.iter().cloned().collect();
    rmp_serde::to_vec(&map).map_err(|error| error.to_string())
}

/// `rmp_serde::to_vec` of an executable and its arguments: where it succeeds, a function
/// of them alone. That it succeeds is not stated: its buffer may fail to grow.
#[verifier::external_body]
fn pack_command(executable: &String, arguments: &Vec<String>) -> (packed: Result<Vec<u8>, String>)
    ensures
        packed matches Ok(bytes) ==> bytes@ == packed_command(executable@, texts(arguments@)),
{
    rmp_serde::to_vec(&(executable, arguments)).map_err(|error| error.to_string())
}

/// `rmp_serde::to_vec` of a frame's parts: where it succeeds, a function of them alone.
/// That it succeeds is not stated: its buffer may fail to grow.
#[verifier::external_body]
fn pack_frame(
    protocol: &String,
    host: &String,
    nonce: &Vec<u8>,
    sequence: u64,
    body: &Vec<u8>,
) -> (packed: Result<Vec<u8>, String>)
    ensures
        packed matches Ok(bytes) ==> bytes@ == packed_frame(
            protocol@,
            host@,
            nonce@,
            sequence as int,
            body@,
        ),
{
    rmp_serde::to_vec(&(protocol, host, nonce, sequence, body)).map_err(|error| error.to_string())
}

/// The identifier of what was packed, or the words in which packing failed.
pub fn contract_id(packed: Result<Vec<u8>, String>) -> (outcome: Result<String, Refusal>)
    ensures
        match packed {
            Ok(bytes) => outcome matches Ok(id) && id@ == digest_id(bytes@),
            Err(words) => outcome matches Err(refusal) && refusal@ == words@,
        },
{
    match packed {
        Ok(bytes) => Ok(sha256_id(bytes.as_slice())),
        Err(words) => Err(Refusal { text: words }),
    }
}

/// The identifier of an environment contract: the digest of its packed map.
pub fn environment_contract(environment: &TextMap) -> (outcome: Result<String, Refusal>)
    ensures
        outcome matches Ok(id) ==> id@ == digest_id(packed_map(environment@)),
{
    let pairs = environment.to_pairs();
    let packed = pack_map(&pairs);
    contract_id(packed)
}

/// The identifier of a launched command: the digest of its packed parts.
pub fn command_contract(executable: &String, arguments: &Vec<String>) -> (outcome: Result<
    String,
    Refusal,
>)
    ensures
        outcome matches Ok(id) ==> id@ == digest_id(packed_command(executable@, texts(arguments@))),
{
    let packed = pack_command(executable, arguments);
    contract_id(packed)
}

/// `rmp_serde::to_vec` of an envelope's parts: where it succeeds, a function of them alone.
/// That it succeeds is not stated: its buffer may fail to grow.
#[verifier::external_body]
fn pack_envelope(
    frame: (&String, &String, &Vec<u8>, u64, &Vec<u8>),
    signer: &String,
    signature: &Vec<u8>,
) -> (packed: Result<Vec<u8>, String>)
    ensures
        packed matches Ok(bytes) ==> bytes@ == packed_envelope(
            frame.0@,
            frame.1@,
            frame.2@,
            frame.3 as int,
            frame.4@,
            signer@,
            signature@,
        ),
{
    let (protocol, host, nonce, sequence, body) = frame;
    rmp_serde::to_vec(&(protocol, host, nonce, sequence, body, signer, signature))
        .map_err(|error| error.to_string())
}

/// The bytes of an envelope.
pub fn envelope_bytes(
    frame: (&String, &String, &Vec<u8>, u64, &Vec<u8>),
    signer: &String,
    signature: &Vec<u8>,
) -> (outcome: Result<Vec<u8>, Refusal>)
    ensures
        outcome matches Ok(bytes) ==> bytes@ == packed_envelope(
            frame.0@,
            frame.1@,
            frame.2@,
            frame.3 as int,
            frame.4@,
            signer@,
            signature@,
        ),
{
    match pack_envelope(frame, signer, signature) {
        Ok(bytes) => Ok(bytes),
        Err(words) => Err(Refusal { text: words }),
    }
}

/// The bytes that the signature of a frame covers.
pub fn frame_bytes(
    protocol: &String,
    host: &String,
    nonce: &Vec<u8>,
    sequence: u64,
    body: &Vec<u8>,
) -> (outcome: Result<Vec<u8>, Refusal>)
    ensures
        outcome matches Ok(bytes) ==> bytes@ == packed_frame(
            protocol@,
            host@,
            nonce@,
            sequence as int,
            body@,
        ),
{
    match pack_frame(protocol, host, nonce, sequence, body) {
        Ok(bytes) => Ok(bytes),
        Err(words) => Err(Refusal { text: words }),
    }
}

} // verus!
