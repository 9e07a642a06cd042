//! Digests, and the grammars of the identifiers the drivers admit.
use vstd::prelude::*;

use crate::scan::{all_of, alphanumeric, hex, lower_hex, starts, strip_prefix};
use crate::text::{cat2, chars_of, either, judged, unless, Refusal};

verus! {

/// The SHA-256 digest of a byte string.
pub uninterp spec fn sha256_digest(bytes: Seq<u8>) -> Seq<u8>;

/// A SHA-256 hasher, fed piece by piece.
#[verifier::external_body]
pub struct Hasher {
    inner: sha2::Sha256,
}

/// What a hasher has been fed since it was made.
pub uninterp spec fn absorbed(hasher: Hasher) -> Seq<u8>;

/// `sha2::Sha256::digest`: a function of the bytes alone, thirty-two bytes long.
#[verifier::external_body]
pub(crate) fn sha256(bytes: &[u8]) -> (digest: Vec<u8>)
    ensures
        digest@ == sha256_digest(bytes@),
        digest@.len() == 32,
{
    <sha2::Sha256 as sha2::Digest>::digest(bytes).to_vec()
}

/// `sha2::Sha256::new`: a hasher that has been fed nothing.
#[verifier::external_body]
pub(crate) fn new_hasher() -> (hasher: Hasher)
    ensures
        absorbed(hasher) == Seq::<u8>::empty(),
{
    Hasher { inner: <sha2::Sha256 as sha2::Digest>::new() }
}

/// `sha2::Sha256::update`: the bytes are fed behind what was fed before.
#[verifier::external_body]
pub(crate) fn feed(hasher: &mut Hasher, bytes: &[u8])
    ensures
        absorbed(*final(hasher)) == absorbed(*old(hasher)) + bytes@,
{
    sha2::Digest::update(&mut hasher.inner, bytes)
}

/// `sha2::Sha256::finalize`: the digest of everything that was fed.
#[verifier::external_body]
pub(crate) fn finish(hasher: Hasher) -> (digest: Vec<u8>)
    ensures
        digest@ == sha256_digest(absorbed(hasher)),
        digest@.len() == 32,
{
    sha2::Digest::finalize(hasher.inner).to_vec()
}

/// The lower-case hexadecimal digit of a value below sixteen.
pub open spec fn hex_digit(n: int) -> char {
    if n < 10 {
        ('0' as int + n) as char
    } else {
        ('a' as int + (n - 10)) as char
    }
}

/// The lower-case hexadecimal notation of bytes, two digits for each.
pub open spec fn hex_text(bytes: Seq<u8>) -> Seq<char> {
    Seq::new(
        2 * bytes.len(),
        |i: int|
            if i % 2 == 0 {
                hex_digit(bytes[i / 2] as int / 16)
            } else {
                hex_digit(bytes[i / 2] as int % 16)
            },
    )
}

/// The SHA-256 digest of bytes in hexadecimal notation.
pub open spec fn raw_digest_text(bytes: Seq<u8>) -> Seq<char> {
    hex_text(sha256_digest(bytes))
}

/// The identifier of bytes by their SHA-256 digest.
pub open spec fn digest_id(bytes: Seq<u8>) -> Seq<char> {
    "sha256-"@ + hex_text(sha256_digest(bytes))
}

fn hex_char(n: u8) -> (c: char)
    requires
        n < 16,
    ensures
        c == hex_digit(n as int),
{
    if n < 10 {
        (48u8 + n) as char
    } else {
        (87u8 + n) as char
    }
}

/// The lower-case hexadecimal notation of bytes.
pub fn hex_of(bytes: &[u8]) -> (s: String)
    ensures
        s@ == hex_text(bytes@),
{
    let mut s = String::new();
    let mut i: usize = 0;
    while i < bytes.len()
        invariant
            i <= bytes@.len(),
            s@ == hex_text(bytes@.take(i as int)),
        decreases bytes@.len() - i,
    {
        s.push(hex_char(bytes[i] / 16));
        s.push(hex_char(bytes[i] % 16));
        i += 1;
        assert(s@ =~= hex_text(bytes@.take(i as int)));
    }
    assert(bytes@.take(i as int) =~= bytes@);
    s
}

/// The SHA-256 digest of bytes in hexadecimal notation.
pub fn raw_sha256(bytes: &[u8]) -> (s: String)
    ensures
        s@ == raw_digest_text(bytes@),
{
    let digest = sha256(bytes);
    hex_of(digest.as_slice())
}

/// The identifier of bytes by their SHA-256 digest.
///
/// Every identifier made here is one that `require_sha256_id` admits.
pub fn sha256_id(bytes: &[u8]) -> (s: String)
    ensures
        s@ == digest_id(bytes@),
        sha256_name(s@),
{
    let digest = sha256(bytes);
    let raw = hex_of(digest.as_slice());
    proof {
        lemma_digest_id_admitted(bytes@);
    }
    cat2("sha256-", raw.as_str())
}

/// Begins a digest of nothing yet.
pub fn begin_digest() -> (hasher: Hasher)
    ensures
        absorbed(hasher) == Seq::<u8>::empty(),
{
    new_hasher()
}

/// Adds bytes to a digest, behind what it was fed before.
pub fn absorb(hasher: &mut Hasher, bytes: &[u8])
    ensures
        absorbed(*final(hasher)) == absorbed(*old(hasher)) + bytes@,
{
    feed(hasher, bytes)
}

/// Ends a hasher with the identifier of everything it was fed.
pub fn finish_id(hasher: Hasher) -> (s: String)
    ensures
        s@ == digest_id(absorbed(hasher)),
{
    let digest = finish(hasher);
    let raw = hex_of(digest.as_slice());
    cat2("sha256-", raw.as_str())
}

/// Ends a hasher with the hexadecimal digest of everything it was fed.
pub fn finish_raw(hasher: Hasher) -> (s: String)
    ensures
        s@ == raw_digest_text(absorbed(hasher)),
{
    let digest = finish(hasher);
    hex_of(digest.as_slice())
}

/// The digest of a stream is the digest of its pieces fed in order.
pub fn sha256_reader(pieces: &[Vec<u8>]) -> (s: String)
    ensures
        s@ == digest_id(crate::text::byte_strings(pieces@).flatten()),
{
    let mut hasher = new_hasher();
    let ghost all = crate::text::byte_strings(pieces@);
    let mut i: usize = 0;
    assert(all.take(0).flatten() =~= Seq::<u8>::empty()) by {
        assert(all.take(0) =~= Seq::<Seq<u8>>::empty());
    }
    while i < pieces.len()
        invariant
            i <= pieces@.len(),
            all == crate::text::byte_strings(pieces@),
            absorbed(hasher) == all.take(i as int).flatten(),
        decreases pieces@.len() - i,
    {
        feed(&mut hasher, pieces[i].as_slice());
        i += 1;
        proof {
            assert(all.take(i as int).drop_last() =~= all.take(i - 1));
            assert(all.take(i as int).last() == pieces@[i - 1]@);
            all.take(i as int).lemma_flatten_and_flatten_alt_are_equivalent();
            all.take(i - 1).lemma_flatten_and_flatten_alt_are_equivalent();
        }
    }
    assert(all.take(i as int) =~= all);
    finish_id(hasher)
}

/// The lower-case hexadecimal SHA-1 object names that Git gives.
pub open spec fn git_sha(value: Seq<char>) -> bool {
    value.len() == 40 && all_of(value, |c: char| lower_hex(c))
}

/// The lower-case SHA-256 identifiers.
pub open spec fn sha256_name(value: Seq<char>) -> bool {
    &&& starts(value, "sha256-"@)
    &&& value.skip("sha256-"@.len() as int).len() == 64
    &&& all_of(value.skip("sha256-"@.len() as int), |c: char| lower_hex(c))
}

/// The identifiers a driver admits: letters, digits, dots, underscores and hyphens,
/// from one to one hundred and twenty-eight of them.
pub open spec fn driver_name(value: Seq<char>) -> bool {
    &&& 0 < value.len() <= 128
    &&& all_of(value, |c: char| alphanumeric(c) || c == '.' || c == '_' || c == '-')
}

/// Why a Git object name is refused.
pub open spec fn git_sha_refusal(value: Seq<char>, label: Seq<char>) -> Option<Seq<char>> {
    unless(git_sha(value), label + " is not a lowercase SHA-1 object id"@)
}

/// Why a SHA-256 identifier is refused.
pub open spec fn sha256_id_refusal(value: Seq<char>, label: Seq<char>) -> Option<Seq<char>> {
    either(
        unless(starts(value, "sha256-"@), label + " has no sha256 prefix"@),
        unless(sha256_name(value), label + " is not a lowercase SHA-256 id"@),
    )
}

/// Why a driver identifier is refused.
pub open spec fn driver_id_refusal(value: Seq<char>, label: Seq<char>) -> Option<Seq<char>> {
    unless(driver_name(value), label + " id is invalid"@)
}

/// Whether every character of a text is a digit or a lower-case hexadecimal letter.
pub fn is_lower_hex(value: &str) -> (is: bool)
    ensures
        is == all_of(value@, |c: char| lower_hex(c)),
{
    let chars = chars_of(value);
    let mut i: usize = 0;
    while i < chars.len()
        invariant
            i <= chars@.len(),
            chars@ == value@,
            forall|j: int| 0 <= j < i ==> lower_hex(#[trigger] chars@[j]),
        decreases chars@.len() - i,
    {
        let c = chars[i];
        if !(('0' <= c && c <= '9') || ('a' <= c && c <= 'f')) {
            assert(!lower_hex(value@[i as int]));
            return false;
        }
        i += 1;
    }
    true
}

/// Whether every character of a text is a hexadecimal digit of either case.
pub fn is_hex(value: &str) -> (is: bool)
    ensures
        is == all_of(value@, |c: char| hex(c)),
{
    let chars = chars_of(value);
    let mut i: usize = 0;
    while i < chars.len()
        invariant
            i <= chars@.len(),
            chars@ == value@,
            forall|j: int| 0 <= j < i ==> hex(#[trigger] chars@[j]),
        decreases chars@.len() - i,
    {
        let c = chars[i];
        if !(('0' <= c && c <= '9') || ('a' <= c && c <= 'f') || ('A' <= c && c <= 'F')) {
            assert(!hex(value@[i as int]));
            return false;
        }
        i += 1;
    }
    true
}

/// Whether a text holds letters, digits and these three further characters only.
pub fn is_name_of(value: &str, one: char, two: char, three: char) -> (is: bool)
    ensures
        is == all_of(value@, |c: char| alphanumeric(c) || c == one || c == two || c == three),
{
    let chars = chars_of(value);
    let ghost kind = |c: char| alphanumeric(c) || c == one || c == two || c == three;
    let mut i: usize = 0;
    while i < chars.len()
        invariant
            i <= chars@.len(),
            chars@ == value@,
            kind == (|c: char| alphanumeric(c) || c == one || c == two || c == three),
            forall|j: int| 0 <= j < i ==> kind(#[trigger] chars@[j]),
        decreases chars@.len() - i,
    {
        let c = chars[i];
        let plain = ('0' <= c && c <= '9') || ('a' <= c && c <= 'z') || ('A' <= c && c <= 'Z');
        if !(plain || c == one || c == two || c == three) {
            assert(!kind(value@[i as int]));
            return false;
        }
        i += 1;
    }
    true
}

/// Admits a Git object name.
pub fn require_git_sha(value: &str, label: &str) -> (outcome: Result<(), Refusal>)
    ensures
        judged(outcome, git_sha_refusal(value@, label@)),
{
    let chars = chars_of(value);
    if chars.len() == 40 && is_lower_hex(value) {
        Ok(())
    } else {
        Err(Refusal { text: cat2(label, " is not a lowercase SHA-1 object id") })
    }
}

/// Admits a SHA-256 identifier.
pub fn require_sha256_id(value: &str, label: &str) -> (outcome: Result<(), Refusal>)
    ensures
        judged(outcome, sha256_id_refusal(value@, label@)),
{
    match strip_prefix(value, "sha256-") {
        None => Err(Refusal { text: cat2(label, " has no sha256 prefix") }),
        Some(rest) => {
            let chars = chars_of(rest.as_str());
            if chars.len() == 64 && is_lower_hex(rest.as_str()) {
                Ok(())
            } else {
                Err(Refusal { text: cat2(label, " is not a lowercase SHA-256 id") })
            }
        },
    }
}

/// Admits a driver identifier.
pub fn require_driver_id(value: &str, label: &str) -> (outcome: Result<(), Refusal>)
    ensures
        judged(outcome, driver_id_refusal(value@, label@)),
{
    let chars = chars_of(value);
    if chars.len() > 0 && chars.len() <= 128 && is_name_of(value, '.', '_', '-') {
        Ok(())
    } else {
        Err(Refusal { text: cat2(label, " id is invalid") })
    }
}

proof fn lemma_digest_id_admitted(bytes: Seq<u8>)
    ensures
        sha256_digest(bytes).len() == 32 ==> sha256_name(digest_id(bytes)),
{
    let id = digest_id(bytes);
    let digest = hex_text(sha256_digest(bytes));
    assert(id.take("sha256-"@.len() as int) =~= "sha256-"@);
    assert(id.skip("sha256-"@.len() as int) =~= digest);
    assert forall|i: int| 0 <= i < digest.len() implies lower_hex(#[trigger] digest[i]) by {
        let b = sha256_digest(bytes)[i / 2] as int;
        assert(0 <= b / 16 < 16);
        assert(0 <= b % 16 < 16);
    }
}

} // verus!
